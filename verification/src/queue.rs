//! The set of pending stops.

use std::collections::BTreeSet;
use vstd::prelude::*;
use crate::floor::Floor;

verus! {

/// The pending stops of a car: a set of distinct floors, kept in ascending
/// order. Requesting a floor that is already pending changes nothing.
pub struct RequestQueue {
    floors: BTreeSet<i64>,
}

/// Whether `f` is a member of `stops` that no other member lies below.
pub open spec fn is_lowest(stops: Set<int>, f: int) -> bool {
    &&& stops.contains(f)
    &&& forall|g: int| stops.contains(g) ==> f <= g
}

/// Whether `f` is a member of `stops` that no other member lies above.
pub open spec fn is_highest(stops: Set<int>, f: int) -> bool {
    &&& stops.contains(f)
    &&& forall|g: int| stops.contains(g) ==> g <= f
}

/// Calls `BTreeSet::first`. Not proved here, but taken from its
/// documentation: the result is a member of the set that no member is less
/// than, and it is `None` only for the empty set.
#[verifier::external_body]
fn first_of(floors: &BTreeSet<i64>) -> (r: Option<&i64>)
    ensures
        match r {
            Some(f) => floors@.contains(*f) && forall|g: i64| floors@.contains(g) ==> *f <= g,
            None => floors@ == Set::<i64>::empty(),
        },
{
    floors.first()
}

/// Calls `BTreeSet::last`. Not proved here, but taken from its
/// documentation: the result is a member of the set that no member is
/// greater than, and it is `None` only for the empty set.
#[verifier::external_body]
fn last_of(floors: &BTreeSet<i64>) -> (r: Option<&i64>)
    ensures
        match r {
            Some(f) => floors@.contains(*f) && forall|g: i64| floors@.contains(g) ==> g <= *f,
            None => floors@ == Set::<i64>::empty(),
        },
{
    floors.last()
}

impl View for RequestQueue {
    type V = Set<int>;

    /// The pending floors, as a set of integers.
    closed spec fn view(&self) -> Set<int> {
        Set::new(|f: int| i64::MIN <= f <= i64::MAX && self.floors@.contains(f as i64))
    }
}

impl RequestQueue {
    /// A queue with no pending stop.
    pub fn new() -> (q: Self)
        ensures
            q@ == Set::<int>::empty(),
    {
        let q = RequestQueue { floors: BTreeSet::new() };
        assert(q@ =~= Set::<int>::empty());
        q
    }

    /// Whether no stop is pending.
    pub fn is_empty(&self) -> (r: bool)
        ensures
            r == (self@ == Set::<int>::empty()),
    {
        let r = self.floors.is_empty();
        proof {
            if r {
                assert(self@ =~= Set::<int>::empty());
            } else {
                let f: i64 = choose|f: i64| self.floors@.contains(f);
                assert(self@.contains(f as int));
            }
        }
        r
    }

    /// Whether `floor` is pending.
    pub fn contains(&self, floor: Floor) -> (r: bool)
        ensures
            r == self@.contains(floor@),
    {
        self.floors.contains(&floor.0)
    }

    /// Adds `floor` to the pending stops; says whether it was not yet
    /// pending.
    pub fn insert(&mut self, floor: Floor) -> (fresh: bool)
        ensures
            final(self)@ == old(self)@.insert(floor@),
            fresh == !old(self)@.contains(floor@),
    {
        let fresh = self.floors.insert(floor.0);
        assert(self@ =~= old(self)@.insert(floor@));
        fresh
    }

    /// Takes `floor` out of the pending stops; says whether it was pending.
    pub fn remove(&mut self, floor: Floor) -> (was_pending: bool)
        ensures
            final(self)@ == old(self)@.remove(floor@),
            was_pending == old(self)@.contains(floor@),
    {
        let was_pending = self.floors.remove(&floor.0);
        assert(self@ =~= old(self)@.remove(floor@));
        was_pending
    }

    /// The lowest pending floor, if any stop is pending.
    pub fn lowest(&self) -> (r: Option<Floor>)
        ensures
            match r {
                Some(f) => is_lowest(self@, f@),
                None => self@ == Set::<int>::empty(),
            },
    {
        match first_of(&self.floors) {
            Some(f) => Some(Floor(*f)),
            None => {
                assert(self@ =~= Set::<int>::empty());
                None
            },
        }
    }

    /// The highest pending floor, if any stop is pending.
    pub fn highest(&self) -> (r: Option<Floor>)
        ensures
            match r {
                Some(f) => is_highest(self@, f@),
                None => self@ == Set::<int>::empty(),
            },
    {
        match last_of(&self.floors) {
            Some(f) => Some(Floor(*f)),
            None => {
                assert(self@ =~= Set::<int>::empty());
                None
            },
        }
    }
}

} // verus!
