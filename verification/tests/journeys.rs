use elevator::{Dir, Elevator, ElevatorError, Floor, State};

fn pending(e: &Elevator) -> Vec<i64> {
    e.pending().iter().map(|f| f.0).collect()
}

#[test]
fn single_request_is_served_step_by_step() {
    let mut e = Elevator::default();
    assert_eq!(e.current(), Floor(0));
    assert_eq!(*e.state(), State::Stopped);
    assert_eq!(e.move_to(Floor(3)), Ok(()));
    assert_eq!(e.direction(), Dir::Up);

    e.tick();
    assert_eq!(*e.state(), State::Moving(Dir::Up));
    assert_eq!(e.current(), Floor(0));

    e.tick();
    assert_eq!(e.current(), Floor(1));
    e.tick();
    assert_eq!(e.current(), Floor(2));
    assert_eq!(e.direction(), Dir::Up);

    e.tick();
    assert_eq!(e.current(), Floor(3));
    assert_eq!(e.direction(), Dir::Down);
    assert_eq!(*e.state(), State::Moving(Dir::Up));
    assert_eq!(pending(&e), vec![3]);

    e.tick();
    assert_eq!(*e.state(), State::Opened);
    assert!(e.is_opened());
    assert_eq!(e.current(), Floor(3));
    assert!(pending(&e).is_empty());

    e.tick();
    assert_eq!(*e.state(), State::Stopped);
    assert!(!e.is_opened());
    assert_eq!(e.current(), Floor(3));
    assert_eq!(e.direction(), Dir::Down);
}

#[test]
fn out_of_range_request_changes_nothing() {
    let mut e = Elevator::default();
    assert_eq!(e.move_to(Floor(99)), Err(ElevatorError::OutOfRange(Floor(99))));
    assert!(pending(&e).is_empty());
    assert_eq!(e.current(), Floor(0));
    assert_eq!(e.direction(), Dir::Up);
    assert_eq!(*e.state(), State::Stopped);
}

#[test]
fn two_requests_are_both_served_with_one_reversal() {
    let mut e = Elevator::default();
    assert_eq!(e.move_to(Floor(2)), Ok(()));
    assert_eq!(e.move_to(Floor(-1)), Ok(()));
    assert_eq!(e.direction(), Dir::Up);
    assert_eq!(pending(&e), vec![-1, 2]);

    let mut opened_at: Vec<i64> = Vec::new();
    let mut motions: Vec<Dir> = Vec::new();
    let mut ticks = 0;
    loop {
        e.tick();
        ticks += 1;
        match *e.state() {
            State::Opened => opened_at.push(e.current().0),
            State::Moving(d) => {
                if motions.last() != Some(&d) {
                    motions.push(d);
                }
            }
            State::Stopped => break,
        }
        assert!(ticks < 50);
    }
    assert_eq!(opened_at, vec![2, -1]);
    assert_eq!(motions, vec![Dir::Up, Dir::Down]);
    assert!(pending(&e).is_empty());
    assert_eq!(e.current(), Floor(-1));
    // start, 2 floors up, open, start, 3 floors down, open, stop
    assert_eq!(ticks, 10);
}
