use elevator::control::{cycle, read_line, receive};
use elevator::{Dir, Elevator, ElevatorError, Floor, Input, State};

fn snapshot(e: &Elevator) -> (i64, Vec<i64>, State, Dir) {
    (e.current().0, e.pending().iter().map(|f| f.0).collect(), *e.state(), e.direction())
}

#[test]
fn lines_become_requests_or_are_malformed() {
    assert_eq!(read_line("3\n"), Input::Request(Floor(3)));
    assert_eq!(read_line("99\n"), Input::Request(Floor(99)));
    assert_eq!(read_line("abc\n"), Input::Malformed);
    assert_eq!(read_line("\n"), Input::Malformed);
    assert_eq!(read_line("200\n"), Input::Request(Floor(200)));
    assert_eq!(read_line("-300\n"), Input::Request(Floor(-300)));
    assert_eq!(read_line("99999999999999999999\n"), Input::Malformed);
}

#[test]
fn malformed_text_is_shown_and_leaves_the_car_alone() {
    let mut e = Elevator::default();
    e.move_to(Floor(2)).unwrap();
    e.tick();
    e.tick();
    let before = snapshot(&e);
    let input = read_line("abc");
    assert_eq!(receive(&mut e, input), Ok(Some(ElevatorError::InvalidFloorText)));
    assert_eq!(snapshot(&e), before);

    let mut with_input = Elevator::default();
    let mut without = Elevator::default();
    assert_eq!(cycle(&mut with_input, input), Ok(Some(ElevatorError::InvalidFloorText)));
    assert_eq!(cycle(&mut without, Input::Nothing), Ok(None));
    assert_eq!(snapshot(&with_input), snapshot(&without));
}

#[test]
fn out_of_range_request_is_shown_and_leaves_the_car_alone() {
    let mut e = Elevator::default();
    let before = snapshot(&e);
    assert_eq!(
        receive(&mut e, Input::Request(Floor(99))),
        Ok(Some(ElevatorError::OutOfRange(Floor(99))))
    );
    assert_eq!(snapshot(&e), before);
    assert_eq!(
        cycle(&mut e, Input::Request(Floor(-3))),
        Ok(Some(ElevatorError::OutOfRange(Floor(-3))))
    );
    assert_eq!(snapshot(&e), before);
}

#[test]
fn an_error_is_shown_for_one_cycle_only() {
    let mut e = Elevator::default();
    assert_eq!(cycle(&mut e, Input::Malformed), Ok(Some(ElevatorError::InvalidFloorText)));
    assert_eq!(cycle(&mut e, Input::Nothing), Ok(None));
    assert_eq!(
        cycle(&mut e, Input::Request(Floor(6))),
        Ok(Some(ElevatorError::OutOfRange(Floor(6))))
    );
    assert_eq!(cycle(&mut e, Input::Request(Floor(5))), Ok(None));
}

#[test]
fn a_request_is_taken_before_the_tick() {
    let mut e = Elevator::default();
    assert_eq!(cycle(&mut e, Input::Request(Floor(1))), Ok(None));
    assert_eq!(snapshot(&e), (0, vec![1], State::Moving(Dir::Up), Dir::Up));
    assert_eq!(cycle(&mut e, Input::Nothing), Ok(None));
    assert_eq!(snapshot(&e), (1, vec![1], State::Moving(Dir::Up), Dir::Down));
    assert_eq!(cycle(&mut e, Input::Nothing), Ok(None));
    assert_eq!(snapshot(&e), (1, vec![], State::Opened, Dir::Down));
    assert_eq!(cycle(&mut e, Input::Nothing), Ok(None));
    assert_eq!(snapshot(&e), (1, vec![], State::Stopped, Dir::Down));
}

#[test]
fn a_request_for_the_floor_of_the_car_opens_the_doors() {
    let mut e = Elevator::default();
    assert_eq!(cycle(&mut e, Input::Request(Floor(0))), Ok(None));
    assert_eq!(snapshot(&e), (0, vec![], State::Opened, Dir::Down));
}

#[test]
fn a_lost_feed_is_fatal_and_stops_the_car_where_it_is() {
    let mut e = Elevator::default();
    e.move_to(Floor(2)).unwrap();
    e.tick();
    let before = snapshot(&e);
    assert_eq!(receive(&mut e, Input::Disconnected), Err(ElevatorError::ChannelDisconnected));
    assert_eq!(snapshot(&e), before);
    assert_eq!(cycle(&mut e, Input::Disconnected), Err(ElevatorError::ChannelDisconnected));
    assert_eq!(snapshot(&e), before);
}

#[test]
fn requests_are_taken_one_per_cycle() {
    let mut e = Elevator::default();
    let lines = ["2\n", "-1\n", "x\n", "7\n"];
    let mut shown = Vec::new();
    for line in lines {
        shown.push(cycle(&mut e, read_line(line)).unwrap());
    }
    assert_eq!(
        shown,
        vec![
            None,
            None,
            Some(ElevatorError::InvalidFloorText),
            Some(ElevatorError::OutOfRange(Floor(7)))
        ]
    );
    assert_eq!(snapshot(&e), (2, vec![-1], State::Opened, Dir::Down));
}

#[test]
fn a_display_that_cannot_be_drawn_is_fatal() {
    assert_eq!(elevator::control::after_display(true), Ok(()));
    assert_eq!(
        elevator::control::after_display(false),
        Err(ElevatorError::DisplayIOFailure)
    );
}

#[test]
fn a_number_beyond_the_range_is_a_request_that_is_refused() {
    let mut e = Elevator::default();
    let before = snapshot(&e);
    let input = read_line("200\n");
    assert_eq!(input, Input::Request(Floor(200)));
    assert_eq!(receive(&mut e, input), Ok(Some(ElevatorError::OutOfRange(Floor(200)))));
    assert_eq!(snapshot(&e), before);
    assert_eq!(
        cycle(&mut e, read_line("-129")),
        Ok(Some(ElevatorError::OutOfRange(Floor(-129))))
    );
}
