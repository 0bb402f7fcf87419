//! The car as a mathematical value, and what a request and a tick do to it.

use vstd::prelude::*;
use crate::floor::in_range;
use crate::motion::{Dir, State};

verus! {

/// The state of a car: where it is, which floors are pending, what it is
/// doing and which way it intends to travel.
pub struct Car {
    pub cur: int,
    pub stops: Set<int>,
    pub state: State,
    pub dir: Dir,
}

/// No floor of `stops` lies above `at`: where any stop is pending, `at` is at
/// or above the highest of them.
pub open spec fn clear_above(stops: Set<int>, at: int) -> bool {
    forall|f: int| #[trigger] stops.contains(f) ==> f <= at
}

/// No floor of `stops` lies below `at`: where any stop is pending, `at` is at
/// or below the lowest of them.
pub open spec fn clear_below(stops: Set<int>, at: int) -> bool {
    forall|f: int| #[trigger] stops.contains(f) ==> at <= f
}

/// The number of floors between `a` and `b`.
pub open spec fn distance(a: int, b: int) -> nat {
    if a <= b {
        (b - a) as nat
    } else {
        (a - b) as nat
    }
}

impl Car {
    /// Every pending stop is a floor that the car serves.
    pub open spec fn wf(self) -> bool {
        forall|f: int| #[trigger] self.stops.contains(f) ==> in_range(f)
    }

    /// The car as it is first put into service: at floor 0, at rest, facing
    /// up, with nothing pending.
    pub open spec fn initial() -> Car {
        Car { cur: 0, stops: Set::empty(), state: State::Stopped, dir: Dir::Up }
    }

    /// The direction that a first request for `f` commits the car to.
    pub open spec fn heading_for(self, f: int) -> Dir {
        if f > self.cur {
            Dir::Up
        } else {
            Dir::Down
        }
    }

    /// The car after floor `f` was requested. A floor outside the range
    /// changes nothing. Otherwise `f` becomes pending, and a request that
    /// finds nothing pending also sets the direction towards `f`.
    pub open spec fn request(self, f: int) -> Car {
        if !in_range(f) {
            self
        } else {
            Car {
                stops: self.stops.insert(f),
                dir: if self.stops.is_empty() {
                    self.heading_for(f)
                } else {
                    self.dir
                },
                ..self
            }
        }
    }

    /// The car one tick later. In order of priority: a car standing at a
    /// pending stop serves it and opens its doors; a car with nothing pending
    /// stops; a car at rest starts moving in its direction, without leaving
    /// its floor yet; a moving car advances by one floor, and turns its
    /// direction round once no pending stop lies further that way.
    pub open spec fn tick(self) -> Car {
        if self.stops.contains(self.cur) {
            Car { stops: self.stops.remove(self.cur), state: State::Opened, ..self }
        } else if self.stops.is_empty() {
            Car { state: State::Stopped, ..self }
        } else {
            match self.state {
                State::Stopped | State::Opened => Car { state: State::Moving(self.dir), ..self },
                State::Moving(Dir::Up) => Car {
                    cur: self.cur + 1,
                    dir: if clear_above(self.stops, self.cur + 1) {
                        Dir::Down
                    } else {
                        self.dir
                    },
                    ..self
                },
                State::Moving(Dir::Down) => Car {
                    cur: self.cur - 1,
                    dir: if clear_below(self.stops, self.cur - 1) {
                        Dir::Up
                    } else {
                        self.dir
                    },
                    ..self
                },
            }
        }
    }

    /// The car `n` ticks later, with no request in between.
    pub open spec fn ticks(self, n: nat) -> Car
        decreases n,
    {
        if n == 0 {
            self
        } else {
            self.tick().ticks((n - 1) as nat)
        }
    }

    /// Nothing is pending and the car is not travelling.
    pub open spec fn idle(self) -> bool {
        self.stops.is_empty() && !(self.state is Moving)
    }

    /// Floor `f` lies further from the car's floor in direction `d`.
    pub open spec fn beyond(self, d: Dir, f: int) -> bool {
        match d {
            Dir::Up => f > self.cur,
            Dir::Down => f < self.cur,
        }
    }

    /// Some pending stop lies further from the car's floor in direction `d`.
    pub open spec fn stop_ahead(self, d: Dir) -> bool {
        match d {
            Dir::Up => !clear_above(self.stops, self.cur),
            Dir::Down => !clear_below(self.stops, self.cur),
        }
    }

    /// At most one pending stop lies further from the car's floor in
    /// direction `d`.
    pub open spec fn single_ahead(self, d: Dir) -> bool {
        forall|f: int, g: int|
            self.stops.contains(f) && self.stops.contains(g) && self.beyond(d, f) && self.beyond(
                d,
                g,
            ) ==> f == g
    }

    /// The car is inside the range and will reach every pending stop without
    /// leaving it.
    ///
    /// A car on its way between floors, moving in direction `h`, needs a stop
    /// ahead; and unless that stop is the last one that way, or its
    /// direction agrees with its motion, it needs one behind it as well,
    /// since it will set out in its direction once the doors have closed.
    /// Any other car with a stop pending on another floor needs one in its
    /// direction.
    pub open spec fn on_course(self) -> bool {
        &&& in_range(self.cur)
        &&& self.wf()
        &&& (self.stop_ahead(Dir::Up) || self.stop_ahead(Dir::Down)) ==> match self.state {
            State::Moving(h) if !self.stops.contains(self.cur) => {
                &&& self.stop_ahead(h)
                &&& (self.dir == h || self.single_ahead(h) || self.stop_ahead(h.reversed()))
            },
            _ => self.stop_ahead(self.dir),
        }
    }
}

} // verus!
