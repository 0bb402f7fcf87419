//! The elevator car and its operations.

use vstd::prelude::*;
use crate::error::ElevatorError;
use crate::floor::{in_range, Floor, MAX_FLOOR, MIN_FLOOR};
use crate::laws::lemma_tick_keeps_course;
use crate::model::Car;
use crate::motion::{Dir, State};
use crate::queue::RequestQueue;

verus! {

/// A single elevator car. It is changed only by [`Elevator::move_to`] and
/// [`Elevator::tick`].
pub struct Elevator {
    cur: Floor,
    stops: RequestQueue,
    state: State,
    dir: Dir,
}

impl View for Elevator {
    type V = Car;

    closed spec fn view(&self) -> Car {
        Car { cur: self.cur@, stops: self.stops@, state: self.state, dir: self.dir }
    }
}

impl Elevator {
    /// A car at floor 0, at rest, facing up, with nothing pending.
    pub fn new() -> (e: Self)
        ensures
            e@ == Car::initial(),
            e@.wf(),
    {
        Elevator { cur: Floor(0), stops: RequestQueue::new(), state: State::Stopped, dir: Dir::Up }
    }

    /// Accepts `floor` if it lies in the serviceable range, and otherwise
    /// reports it as out of range.
    pub fn validate(&self, floor: &Floor) -> (r: Result<(), ElevatorError>)
        ensures
            r == if in_range(floor@) {
                Ok::<(), ElevatorError>(())
            } else {
                Err::<(), ElevatorError>(ElevatorError::OutOfRange(*floor))
            },
    {
        if floor.is_served() {
            Ok(())
        } else {
            Err(ElevatorError::OutOfRange(*floor))
        }
    }

    /// Requests a stop at `floor`. A floor outside the serviceable range is
    /// refused and changes nothing. An accepted floor becomes pending; if
    /// nothing was pending before, the direction is set towards it. The
    /// motion state is left as it is.
    pub fn move_to(&mut self, floor: Floor) -> (r: Result<(), ElevatorError>)
        requires
            old(self)@.wf(),
        ensures
            r == if in_range(floor@) {
                Ok::<(), ElevatorError>(())
            } else {
                Err::<(), ElevatorError>(ElevatorError::OutOfRange(floor))
            },
            final(self)@ == old(self)@.request(floor@),
            final(self)@.wf(),
            r is Ok ==> final(self)@.stops.contains(floor@),
            r is Err ==> final(self)@ == old(self)@,
            final(self)@.cur == old(self)@.cur,
            final(self)@.state == old(self)@.state,
    {
        match self.validate(&floor) {
            Ok(()) => {
                if self.stops.is_empty() {
                    self.dir = if floor.0 > self.cur.0 {
                        Dir::Up
                    } else {
                        Dir::Down
                    };
                }
                self.stops.insert(floor);
                Ok(())
            },
            Err(e) => Err(e),
        }
    }

    /// Advances the car by one tick: the car serves its floor, stops,
    /// starts, or travels one floor, whichever applies first in this order.
    /// The floor that the tick leads to must fit a [`Floor`]; that of a car
    /// on course always does, and such a car stays on course.
    pub fn tick(&mut self)
        requires
            old(self)@.wf(),
            i64::MIN <= old(self)@.tick().cur <= i64::MAX,
        ensures
            final(self)@ == old(self)@.tick(),
            final(self)@.wf(),
            final(self)@.state is Opened <==> old(self)@.stops.contains(old(self)@.cur),
            final(self)@.state is Opened ==> !final(self)@.stops.contains(final(self)@.cur),
            old(self)@.cur - 1 <= final(self)@.cur <= old(self)@.cur + 1,
            old(self)@.on_course() ==> final(self)@.on_course(),
    {
        proof {
            if self@.on_course() {
                lemma_tick_keeps_course(self@);
            }
        }
        let should_open = self.stops.remove(self.cur);
        if should_open {
            self.state = State::Opened;
        } else if self.stops.is_empty() {
            self.state = State::Stopped;
        } else {
            assert(self.stops@ =~= old(self)@.stops);
            match self.state {
                State::Stopped | State::Opened => {
                    self.state = State::Moving(self.dir);
                },
                State::Moving(Dir::Up) => {
                    self.cur = Floor(self.cur.0 + 1);
                    let top = self.stops.highest().unwrap();
                    if self.cur.0 >= top.0 {
                        self.dir = Dir::Down;
                    }
                },
                State::Moving(Dir::Down) => {
                    self.cur = Floor(self.cur.0 - 1);
                    let bottom = self.stops.lowest().unwrap();
                    if self.cur.0 <= bottom.0 {
                        self.dir = Dir::Up;
                    }
                },
            }
        }
        assert(self@.stops =~= old(self)@.tick().stops);
    }

    /// Every floor that the car serves, from the lowest to the highest.
    pub fn floors(&self) -> (all: Vec<Floor>)
        ensures
            all@.len() == MAX_FLOOR - MIN_FLOOR + 1,
            forall|i: int| 0 <= i < all@.len() ==> (#[trigger] all@[i])@ == MIN_FLOOR + i,
    {
        let mut all: Vec<Floor> = Vec::new();
        let mut f: i64 = MIN_FLOOR;
        while f <= MAX_FLOOR
            invariant
                MIN_FLOOR <= f <= MAX_FLOOR + 1,
                all@.len() == f - MIN_FLOOR,
                forall|i: int| 0 <= i < all@.len() ==> (#[trigger] all@[i])@ == MIN_FLOOR + i,
            decreases MAX_FLOOR + 1 - f,
        {
            all.push(Floor(f));
            f = f + 1;
        }
        all
    }

    /// The pending stops, from the lowest to the highest, each once.
    pub fn pending(&self) -> (list: Vec<Floor>)
        requires
            self@.wf(),
        ensures
            forall|i: int| 0 <= i < list@.len() ==> self@.stops.contains((#[trigger] list@[i])@),
            forall|f: int|
                #![trigger self@.stops.contains(f)]
                self@.stops.contains(f) ==> exists|i: int|
                    0 <= i < list@.len() && (#[trigger] list@[i])@ == f,
            forall|i: int, j: int| 0 <= i < j < list@.len() ==> list@[i]@ < list@[j]@,
    {
        let mut list: Vec<Floor> = Vec::new();
        let mut f: i64 = MIN_FLOOR;
        while f <= MAX_FLOOR
            invariant
                self@.wf(),
                MIN_FLOOR <= f <= MAX_FLOOR + 1,
                forall|i: int|
                    0 <= i < list@.len() ==> self@.stops.contains((#[trigger] list@[i])@)
                        && list@[i]@ < f,
                forall|g: int|
                    #![trigger self@.stops.contains(g)]
                    self@.stops.contains(g) && g < f ==> exists|i: int|
                        0 <= i < list@.len() && (#[trigger] list@[i])@ == g,
                forall|i: int, j: int| 0 <= i < j < list@.len() ==> list@[i]@ < list@[j]@,
            decreases MAX_FLOOR + 1 - f,
        {
            if self.stops.contains(Floor(f)) {
                let ghost before = list@;
                list.push(Floor(f));
                assert(forall|i: int| 0 <= i < before.len() ==> list@[i] == before[i]);
                assert(list@[before.len() as int]@ == f);
            }
            f = f + 1;
        }
        list
    }

    /// Whether a stop at `floor` is pending.
    pub fn is_pending(&self, floor: Floor) -> (r: bool)
        ensures
            r == self@.stops.contains(floor@),
    {
        self.stops.contains(floor)
    }

    /// The floor the car is at.
    pub fn current(&self) -> (f: Floor)
        ensures
            f@ == self@.cur,
    {
        self.cur
    }

    /// The direction the car intends to travel in.
    pub fn direction(&self) -> (d: Dir)
        ensures
            d == self@.dir,
    {
        self.dir
    }

    /// What the car is doing.
    pub fn state(&self) -> (s: &State)
        ensures
            *s == self@.state,
    {
        &self.state
    }

    /// Whether the doors are open.
    pub fn is_opened(&self) -> (r: bool)
        ensures
            r == (self@.state is Opened),
    {
        matches!(self.state, State::Opened)
    }

    /// The position of the car's floor among the floors it serves, counted
    /// from the lowest, which has position 0.
    pub fn idx(&self) -> (i: usize)
        requires
            in_range(self@.cur),
        ensures
            i == self@.cur - MIN_FLOOR,
    {
        (self.cur.0 - MIN_FLOOR) as usize
    }
}

impl Default for Elevator {
    /// A car at floor 0, at rest, facing up, with nothing pending.
    fn default() -> (e: Self)
        ensures
            e@ == Car::initial(),
            e@.wf(),
    {
        Elevator::new()
    }
}

} // verus!
