//! Travel direction and motion state of the car.

use vstd::prelude::*;

verus! {

/// The direction the car intends to travel in.
#[derive(Clone, Copy, Debug, PartialEq, Eq, Structural)]
pub enum Dir {
    Up,
    Down,
}

/// What the car is doing: at rest, travelling, or standing with its doors
/// open.
#[derive(Clone, Copy, Debug, PartialEq, Eq, Structural)]
pub enum State {
    Stopped,
    Moving(Dir),
    Opened,
}

impl Default for Dir {
    /// Up.
    fn default() -> (d: Self)
        ensures
            d == Dir::Up,
    {
        Dir::Up
    }
}

impl Default for State {
    /// Stopped.
    fn default() -> (s: Self)
        ensures
            s == State::Stopped,
    {
        State::Stopped
    }
}

impl Dir {
    /// The other direction.
    pub open spec fn reversed(self) -> Dir {
        match self {
            Dir::Up => Dir::Down,
            Dir::Down => Dir::Up,
        }
    }
}

} // verus!
