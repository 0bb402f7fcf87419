//! Floors and the serviceable range.

use vstd::prelude::*;

verus! {

/// The lowest floor the car serves.
pub const MIN_FLOOR: i64 = -2;

/// The highest floor the car serves.
pub const MAX_FLOOR: i64 = 5;

/// Whether `f` lies in the closed range of floors the car serves.
pub open spec fn in_range(f: int) -> bool {
    MIN_FLOOR <= f <= MAX_FLOOR
}

/// A floor number. Any value can be written down; only those inside the
/// serviceable range are ever accepted as a stop.
#[derive(Clone, Copy, Debug, PartialEq, Eq, PartialOrd, Ord, Hash, Structural)]
pub struct Floor(pub i64);

impl View for Floor {
    type V = int;

    open spec fn view(&self) -> int {
        self.0 as int
    }
}

impl Default for Floor {
    /// Floor 0.
    fn default() -> (f: Self)
        ensures
            f@ == 0,
    {
        Floor(0)
    }
}

impl Floor {
    /// Whether this floor lies in the serviceable range.
    pub fn is_served(&self) -> (r: bool)
        ensures
            r == in_range(self@),
    {
        MIN_FLOOR <= self.0 && self.0 <= MAX_FLOOR
    }
}

} // verus!
