//! Properties of requests and ticks, proved of the model of the car.

use vstd::prelude::*;
use vstd::set_lib::{lemma_int_range, lemma_len_subset, set_int_range};
use crate::display::{digit_char, digits_text, numeral_text};
use crate::floor::{in_range, MAX_FLOOR, MIN_FLOOR};
use crate::model::{clear_above, clear_below, distance, Car};
use crate::motion::{Dir, State};
use crate::queue::{is_highest, is_lowest};
use crate::text::{all_digits, decimal, floor_number, spec_is_blank, spec_is_digit, trimmed};

verus! {

/// A request never makes a floor outside the range pending.
pub proof fn lemma_request_keeps_wf(car: Car, f: int)
    requires
        car.wf(),
    ensures
        car.request(f).wf(),
{
}

/// A tick never makes a floor outside the range pending.
pub proof fn lemma_tick_keeps_wf(car: Car)
    requires
        car.wf(),
    ensures
        car.tick().wf(),
{
}

/// The pending stops are finitely many: no more than there are floors.
pub proof fn lemma_pending_is_finite(car: Car)
    requires
        car.wf(),
    ensures
        car.stops.finite(),
        car.stops.len() <= MAX_FLOOR - MIN_FLOOR + 1,
{
    let all = set_int_range(MIN_FLOOR as int, MAX_FLOOR + 1);
    lemma_int_range(MIN_FLOOR as int, MAX_FLOOR + 1);
    assert(car.stops.subset_of(all));
    lemma_len_subset(car.stops, all);
}

/// That no pending stop lies above a floor is to say that the floor is at or
/// above the highest pending stop; and likewise below, with the lowest.
pub proof fn lemma_clear_is_past_the_extreme(stops: Set<int>, extreme: int, at: int)
    ensures
        is_highest(stops, extreme) ==> (clear_above(stops, at) <==> at >= extreme),
        is_lowest(stops, extreme) ==> (clear_below(stops, at) <==> at <= extreme),
{
}

/// Requesting a floor twice in a row, with no tick in between, leaves the
/// car as one request does: the queue, and all the rest of it.
pub proof fn lemma_request_idempotent(car: Car, f: int)
    ensures
        car.request(f).request(f) == car.request(f),
        car.request(f).request(f).stops == car.request(f).stops,
{
    if in_range(f) {
        let once = car.request(f);
        assert(once.stops.contains(f));
        assert(!once.stops.is_empty());
        assert(once.stops.insert(f) =~= once.stops);
    }
}

/// Waiting `m` ticks and then `n` more is waiting `m + n` ticks.
pub proof fn lemma_ticks_add(car: Car, m: nat, n: nat)
    ensures
        car.ticks(m + n) == car.ticks(m).ticks(n),
    decreases m,
{
    if m > 0 {
        lemma_ticks_add(car.tick(), (m - 1) as nat, n);
        assert(car.ticks(m + n) == car.tick().ticks((m + n - 1) as nat));
    }
}

/// A car with nothing pending keeps its floor and has nothing pending
/// later on.
pub proof fn lemma_nothing_pending_stays(car: Car, n: nat)
    requires
        car.stops.is_empty(),
    ensures
        car.ticks(n).stops.is_empty(),
        car.ticks(n).cur == car.cur,
        n > 0 ==> car.ticks(n).state == State::Stopped,
    decreases n,
{
    if n > 0 {
        lemma_nothing_pending_stays(car.tick(), (n - 1) as nat);
    }
}

/// A car that is new, or any car inside the range with nothing pending, is on
/// course; and so is an idle car after any one request.
pub proof fn lemma_request_to_idle_car_is_on_course(car: Car, f: int)
    requires
        car.idle(),
        in_range(car.cur),
    ensures
        Car::initial().on_course(),
        car.on_course(),
        car.request(f).on_course(),
{
    if in_range(f) {
        let asked = car.request(f);
        assert(asked.stops.contains(f));
        assert forall|g: int| asked.stops.contains(g) implies g == f by {}
    }
}

/// A tick keeps a car on course.
pub proof fn lemma_tick_keeps_course(car: Car)
    requires
        car.on_course(),
    ensures
        car.tick().on_course(),
{
    let next = car.tick();
    if car.stops.contains(car.cur) {
        assert forall|f: int| next.stops.contains(f) implies car.stops.contains(f) by {}
        if next.stop_ahead(Dir::Up) || next.stop_ahead(Dir::Down) {
            assert(car.stop_ahead(Dir::Up) || car.stop_ahead(Dir::Down));
        }
    } else if car.stops.is_empty() {
    } else {
        match car.state {
            State::Stopped | State::Opened => {},
            State::Moving(Dir::Up) => {
                lemma_advance_keeps_course(car, Dir::Up);
            },
            State::Moving(Dir::Down) => {
                lemma_advance_keeps_course(car, Dir::Down);
            },
        }
    }
}

/// The step of a car that is moving between floors keeps it on course.
proof fn lemma_advance_keeps_course(car: Car, h: Dir)
    requires
        car.on_course(),
        car.state == State::Moving(h),
        !car.stops.contains(car.cur),
        !car.stops.is_empty(),
    ensures
        car.tick().on_course(),
{
    let next = car.tick();
    let f = choose|f: int| car.stops.contains(f);
    assert(car.stops.contains(f));
    assert(f != car.cur);
    assert(car.stop_ahead(Dir::Up) || car.stop_ahead(Dir::Down));
    assert(car.stop_ahead(h));
    let a = choose|a: int| car.stops.contains(a) && car.beyond(h, a);
    assert(car.stops.contains(a) && car.beyond(h, a));
    assert(in_range(a));
    assert(in_range(next.cur));
}

/// However many ticks pass with no request in between, a car that is on
/// course stays inside the range of floors.
pub proof fn lemma_ticks_stay_in_range(car: Car, n: nat)
    requires
        car.on_course(),
    ensures
        in_range(car.ticks(n).cur),
        car.ticks(n).on_course(),
    decreases n,
{
    if n > 0 {
        lemma_tick_keeps_course(car);
        lemma_ticks_stay_in_range(car.tick(), (n - 1) as nat);
    }
}

/// A car that moves between floors in direction `h`, with stops pending but
/// none of them ahead, moves on by one floor with every tick.
proof fn lemma_runs_away(car: Car, h: Dir, k: nat)
    requires
        car.state == State::Moving(h),
        !car.stops.is_empty(),
        !car.stops.contains(car.cur),
        !car.stop_ahead(h),
    ensures
        car.ticks(k).cur == (match h {
            Dir::Up => car.cur + k,
            Dir::Down => car.cur - k,
        }),
    decreases k,
{
    if k > 0 {
        let next = car.tick();
        assert(next.stops == car.stops);
        assert(!next.stop_ahead(h));
        lemma_runs_away(next, h, (k - 1) as nat);
    }
}

/// How far a car that is off course is from its last turn: 2 while it moves
/// between floors, 1 while it stands at a pending stop, 0 at rest.
spec fn turns_left(car: Car) -> nat {
    if car.stops.contains(car.cur) {
        1
    } else if car.state is Moving {
        2
    } else {
        0
    }
}

/// The number of floors between a moving car and the end of the range that
/// it moves towards.
spec fn floors_left(car: Car) -> int {
    match car.state {
        State::Moving(Dir::Up) => MAX_FLOOR - car.cur,
        State::Moving(Dir::Down) => car.cur - MIN_FLOOR,
        _ => 0,
    }
}

/// Being on course is no more than it takes to stay inside the range: a car
/// that is not on course is outside the range after some number of ticks,
/// which is returned.
pub proof fn lemma_off_course_leaves_range(car: Car) -> (n: nat)
    requires
        car.wf(),
        !car.on_course(),
    ensures
        !in_range(car.ticks(n).cur),
{
    lemma_ticks_until_outside(car)
}

/// The number of ticks after which a car that is not on course is outside
/// the range.
proof fn lemma_ticks_until_outside(car: Car) -> (n: nat)
    requires
        car.wf(),
        !car.on_course(),
    ensures
        !in_range(car.ticks(n).cur),
    decreases turns_left(car), floors_left(car),
{
    let next = car.tick();
    if !in_range(car.cur) {
        0
    } else if car.stops.contains(car.cur) {
        // The car serves its floor, and then faces away from all that is left.
        assert(next.stops.is_empty() ==> !car.stop_ahead(Dir::Up) && !car.stop_ahead(Dir::Down));
        assert(!next.stop_ahead(car.dir));
        assert(!next.on_course());
        let m = lemma_ticks_until_outside(next);
        (m + 1) as nat
    } else if !(car.state is Moving) {
        // The car sets out in its direction, where no stop lies.
        assert(!car.stops.is_empty());
        let exit = if car.dir == Dir::Up {
            (MAX_FLOOR + 1 - car.cur) as nat
        } else {
            (car.cur - MIN_FLOOR + 1) as nat
        };
        lemma_runs_away(next, car.dir, exit);
        (exit + 1) as nat
    } else {
        let h = car.state->Moving_0;
        assert(!car.stops.is_empty());
        if !car.stop_ahead(h) {
            // The car moves on with nothing ahead.
            let exit = if h == Dir::Up {
                (MAX_FLOOR + 1 - car.cur) as nat
            } else {
                (car.cur - MIN_FLOOR + 1) as nat
            };
            lemma_runs_away(car, h, exit);
            exit
        } else {
            // Two stops or more lie ahead and none behind, and the direction
            // is set against the motion: the car serves the nearest stop and
            // then turns away from the others.
            let (f, g) = choose|f: int, g: int|
                car.stops.contains(f) && car.stops.contains(g) && car.beyond(h, f) && car.beyond(
                    h,
                    g,
                ) && f != g;
            assert(car.stops.contains(f) && car.stops.contains(g) && f != g);
            assert(in_range(f) && in_range(g));
            assert(!clear_above(car.stops, next.cur) || !clear_below(car.stops, next.cur));
            assert(next.dir == car.dir);
            assert(!next.stop_ahead(h.reversed()));
            assert(next.stop_ahead(h));
            assert(next.beyond(h, f) || next.beyond(h, g));
            if !next.stops.contains(next.cur) {
                assert(next.beyond(h, f) && next.beyond(h, g));
                assert(!next.single_ahead(h));
            }
            assert(!next.on_course());
            let m = lemma_ticks_until_outside(next);
            (m + 1) as nat
        }
    }
}

/// A car stays inside the range of floors for ever, with no request in
/// between, exactly if it is on course.
pub proof fn lemma_on_course_is_staying_in_range(car: Car)
    requires
        car.wf(),
    ensures
        car.on_course() <==> forall|n: nat| in_range(#[trigger] car.ticks(n).cur),
{
    if car.on_course() {
        assert forall|n: nat| in_range(#[trigger] car.ticks(n).cur) by {
            lemma_ticks_stay_in_range(car, n);
        }
    } else {
        let n = lemma_off_course_leaves_range(car);
        assert(!in_range(car.ticks(n).cur));
    }
}

/// 1 for a car at rest, 0 for a car that moves.
spec fn starts_left(car: Car) -> nat {
    if car.state is Moving {
        0
    } else {
        1
    }
}

/// A tick brings a car that is on course, and has a stop pending, nearer to
/// the end of its work: it serves a stop, or starts to move, or moves one
/// floor towards the end of the range that it is heading for.
proof fn lemma_tick_makes_progress(car: Car)
    requires
        car.on_course(),
        !car.stops.is_empty(),
    ensures
        car.stops.finite(),
        car.tick().stops.finite(),
        car.tick().stops.len() < car.stops.len() || (car.tick().stops == car.stops && (starts_left(
            car.tick(),
        ) < starts_left(car) || (starts_left(car.tick()) == starts_left(car) && 0 <= floors_left(
            car.tick(),
        ) < floors_left(car)))),
{
    lemma_pending_is_finite(car);
    lemma_tick_keeps_wf(car);
    lemma_pending_is_finite(car.tick());
    if car.stops.contains(car.cur) {
    } else {
        match car.state {
            State::Moving(h) => {
                let f = choose|f: int| car.stops.contains(f);
                assert(car.stops.contains(f));
                assert(car.stop_ahead(Dir::Up) || car.stop_ahead(Dir::Down));
                let a = choose|a: int| car.stops.contains(a) && car.beyond(h, a);
                assert(in_range(a));
            },
            _ => {},
        }
    }
}

/// A car that is on course serves every stop that is pending: after the
/// number of ticks that is returned, the car stands at floor `f` with its
/// doors open and `f` is no longer pending. Until then `f` stays pending.
pub proof fn lemma_pending_stop_is_served(car: Car, f: int) -> (n: nat)
    requires
        car.on_course(),
        car.stops.contains(f),
    ensures
        n > 0,
        car.ticks(n).cur == f,
        car.ticks(n).state == State::Opened,
        !car.ticks(n).stops.contains(f),
        forall|m: nat| m < n ==> #[trigger] car.ticks(m).stops.contains(f),
{
    lemma_ticks_until_served(car, f)
}

/// The number of ticks after which a car that is on course serves the
/// pending stop `f`.
proof fn lemma_ticks_until_served(car: Car, f: int) -> (n: nat)
    requires
        car.on_course(),
        car.stops.contains(f),
    ensures
        n > 0,
        car.ticks(n).cur == f,
        car.ticks(n).state == State::Opened,
        !car.ticks(n).stops.contains(f),
        forall|m: nat| m < n ==> #[trigger] car.ticks(m).stops.contains(f),
    decreases car.stops.len(), starts_left(car), floors_left(car),
{
    let next = car.tick();
    lemma_tick_keeps_course(car);
    lemma_tick_makes_progress(car);
    if car.cur == f {
        assert(car.ticks(1) == next.ticks(0));
        assert forall|m: nat| m < 1 implies #[trigger] car.ticks(m).stops.contains(f) by {}
        1
    } else {
        assert(next.stops.contains(f));
        let rest = lemma_ticks_until_served(next, f);
        let n = (rest + 1) as nat;
        assert(car.ticks(n) == next.ticks(rest));
        assert forall|m: nat| m < n implies #[trigger] car.ticks(m).stops.contains(f) by {
            if m > 0 {
                assert(car.ticks(m) == next.ticks((m - 1) as nat));
            }
        }
        n
    }
}

/// A car that is on course comes to rest: after the number of ticks that is
/// returned nothing is pending, and it has stopped inside the range.
pub proof fn lemma_comes_to_rest(car: Car) -> (n: nat)
    requires
        car.on_course(),
    ensures
        car.ticks(n).stops.is_empty(),
        car.ticks(n).state == State::Stopped,
        in_range(car.ticks(n).cur),
{
    let n = lemma_ticks_until_rest(car);
    lemma_ticks_stay_in_range(car, n);
    n
}

/// The number of ticks after which a car that is on course has stopped with
/// nothing pending.
proof fn lemma_ticks_until_rest(car: Car) -> (n: nat)
    requires
        car.on_course(),
    ensures
        car.ticks(n).stops.is_empty(),
        car.ticks(n).state == State::Stopped,
    decreases car.stops.len(), starts_left(car), floors_left(car),
{
    let next = car.tick();
    if car.stops.is_empty() {
        assert(car.ticks(1) == next.ticks(0));
        1
    } else {
        lemma_tick_keeps_course(car);
        lemma_tick_makes_progress(car);
        let rest = lemma_ticks_until_rest(next);
        assert(car.ticks((rest + 1) as nat) == next.ticks(rest));
        (rest + 1) as nat
    }
}

/// A car that moves towards its only pending stop `f`, with its direction
/// set that way, arrives there and opens its doors one tick later. Until
/// then `f` stays pending.
proof fn lemma_travel_to_only_stop(car: Car, f: int, h: Dir)
    requires
        car.stops == Set::<int>::empty().insert(f),
        car.state == State::Moving(h),
        car.dir == h,
        car.beyond(h, f),
    ensures
        car.ticks(distance(car.cur, f) + 1) == (Car {
            cur: f,
            stops: Set::empty(),
            state: State::Opened,
            dir: h.reversed(),
        }),
        forall|m: nat| m <= distance(car.cur, f) ==> #[trigger] car.ticks(m).stops.contains(f),
    decreases distance(car.cur, f),
{
    let d = distance(car.cur, f);
    let next = car.tick();
    assert(car.stops.contains(f));
    assert(!car.stops.is_empty());
    assert(next.stops == car.stops);
    if d == 1 {
        assert(next.cur == f);
        assert(clear_above(car.stops, f) && clear_below(car.stops, f));
        assert(next.dir == h.reversed());
        let last = next.tick();
        assert(last.stops =~= Set::<int>::empty());
        assert(car.ticks(2) == next.ticks(1));
        assert(next.ticks(1) == last.ticks(0));
        assert forall|m: nat| m <= d implies #[trigger] car.ticks(m).stops.contains(f) by {
            if m == 1 {
                assert(car.ticks(1) == next.ticks(0));
            }
        }
    } else {
        assert(next.beyond(h, f));
        assert(!clear_above(car.stops, next.cur) || !clear_below(car.stops, next.cur));
        assert(next.dir == h);
        lemma_travel_to_only_stop(next, f, h);
        assert(distance(next.cur, f) == d - 1);
        assert(car.ticks(d + 1) == next.ticks(d as nat));
        assert forall|m: nat| m <= d implies #[trigger] car.ticks(m).stops.contains(f) by {
            if m > 0 {
                assert(car.ticks(m) == next.ticks((m - 1) as nat));
                assert(next.ticks((m - 1) as nat).stops.contains(f));
            }
        }
    }
}

/// A single floor `f`, requested from an idle car that stands on another
/// floor, is served: after one tick to start, one tick per floor on the way,
/// and one to arrive, the car stands at `f` with its doors open, nothing is
/// pending, and its direction has turned round. Until that tick `f` is
/// pending, and from it on it is not.
pub proof fn lemma_single_request_is_served(car: Car, f: int)
    requires
        car.idle(),
        in_range(f),
        f != car.cur,
    ensures
        car.request(f).ticks(distance(car.cur, f) + 2) == (Car {
            cur: f,
            stops: Set::empty(),
            state: State::Opened,
            dir: car.heading_for(f).reversed(),
        }),
        forall|m: nat|
            m < distance(car.cur, f) + 2 ==> #[trigger] car.request(f).ticks(m).stops.contains(f),
        forall|m: nat|
            m >= distance(car.cur, f) + 2 ==> !#[trigger] car.request(f).ticks(m).stops.contains(
                f,
            ),
{
    let d = distance(car.cur, f);
    let h = car.heading_for(f);
    let asked = car.request(f);
    assert(asked.stops =~= Set::<int>::empty().insert(f));
    assert(asked.stops.contains(f));
    assert(!asked.stops.is_empty());
    let started = asked.tick();
    assert(started.state == State::Moving(h));
    lemma_travel_to_only_stop(started, f, h);
    assert(asked.ticks(d + 2) == started.ticks(d + 1));
    assert forall|m: nat| m < d + 2 implies #[trigger] asked.ticks(m).stops.contains(f) by {
        if m > 0 {
            assert(asked.ticks(m) == started.ticks((m - 1) as nat));
            assert(started.ticks((m - 1) as nat).stops.contains(f));
        }
    }
    assert forall|m: nat| m >= d + 2 implies !#[trigger] asked.ticks(m).stops.contains(f) by {
        let rest = (m - (d + 2)) as nat;
        lemma_ticks_add(asked, d + 2, rest);
        lemma_nothing_pending_stays(asked.ticks(d + 2), rest);
    }
}

/// The digits that write a number are digits, and write that number.
proof fn lemma_digits_are_read_back(m: nat)
    ensures
        digits_text(m).len() > 0,
        all_digits(digits_text(m)),
        decimal(digits_text(m)) == m,
    decreases m,
{
    let all = digits_text(m);
    let d = (m % 10) as int;
    assert(all.last() == digit_char(d));
    assert(digit_char(d) as u32 == 0x30 + d);
    if m >= 10 {
        lemma_digits_are_read_back(m / 10);
        let front = digits_text(m / 10);
        assert(all.drop_last() =~= front);
        assert forall|i: int| 0 <= i < all.len() implies spec_is_digit(#[trigger] all[i]) by {
            if i < front.len() {
                assert(all[i] == front[i]);
            }
        }
        assert(decimal(all) == 10 * decimal(front) + d);
    } else {
        assert(all.drop_last() =~= Seq::<char>::empty());
        assert(decimal(all.drop_last()) == 0);
    }
}

/// The number that the display writes for a floor is read back from input
/// as that floor.
pub proof fn lemma_numeral_is_read_back(n: int)
    requires
        i64::MIN <= n <= i64::MAX,
    ensures
        floor_number(numeral_text(n)) == Some(n),
{
    let m = (if n < 0 {
        -n
    } else {
        n
    }) as nat;
    lemma_digits_are_read_back(m);
    let digits = digits_text(m);
    let text = numeral_text(n);
    assert(spec_is_digit(digits[0]));
    assert(spec_is_digit(digits[digits.len() - 1]));
    assert(text.last() == digits.last());
    assert(!spec_is_blank(text.first()));
    assert(!spec_is_blank(text.last()));
    assert(trimmed(text) == text);
    if n < 0 {
        assert(text.drop_first() =~= digits);
    }
}

} // verus!
