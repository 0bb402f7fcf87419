//! One cycle of the control loop: what the car does with what the input
//! feed delivered, and which error the display has to show.

use vstd::prelude::*;
use crate::elevator::Elevator;
use crate::error::ElevatorError;
use crate::floor::{in_range, Floor};
use crate::model::Car;
use crate::text::{floor_number, parse_floor};

verus! {

/// What the input feed has for one cycle.
#[derive(Clone, Copy, Debug, PartialEq, Eq, Structural)]
pub enum Input {
    /// No line of input has arrived.
    Nothing,
    /// A line has arrived that writes this floor number.
    Request(Floor),
    /// A line has arrived that writes no floor number.
    Malformed,
    /// The feed has gone away.
    Disconnected,
}

impl Input {
    /// The car after it was handed this input: a floor that was read is
    /// requested, and nothing else touches the car.
    pub open spec fn applied_to(self, car: Car) -> Car {
        match self {
            Input::Request(floor) => car.request(floor@),
            _ => car,
        }
    }

    /// The error that the display shows for the cycle that got this input:
    /// the one that the line was read with, or that of a floor outside the
    /// range. Nothing is kept from earlier cycles.
    pub open spec fn shown(self) -> Option<ElevatorError> {
        match self {
            Input::Request(floor) => if in_range(floor@) {
                None
            } else {
                Some(ElevatorError::OutOfRange(floor))
            },
            Input::Malformed => Some(ElevatorError::InvalidFloorText),
            _ => None,
        }
    }
}

/// What a line of input text amounts to: a request for the floor whose
/// number it writes, or a malformed line.
pub fn read_line(text: &str) -> (input: Input)
    ensures
        input == match floor_number(text@) {
            Some(n) => Input::Request(Floor(n as i64)),
            None => Input::Malformed,
        },
{
    match parse_floor(text) {
        Ok(floor) => Input::Request(floor),
        Err(_) => Input::Malformed,
    }
}

/// Hands the car what the input feed delivered. A floor that was read is
/// requested. The result is the error to show for this cycle, if any; a
/// feed that has gone away is fatal and comes back as `Err`.
pub fn receive(elevator: &mut Elevator, input: Input) -> (r: Result<
    Option<ElevatorError>,
    ElevatorError,
>)
    requires
        old(elevator)@.wf(),
    ensures
        final(elevator)@ == input.applied_to(old(elevator)@),
        final(elevator)@.wf(),
        r == if input is Disconnected {
            Err::<Option<ElevatorError>, ElevatorError>(ElevatorError::ChannelDisconnected)
        } else {
            Ok::<Option<ElevatorError>, ElevatorError>(input.shown())
        },
        match r {
            Ok(Some(e)) => !e.is_fatal(),
            Ok(None) => true,
            Err(e) => e.is_fatal(),
        },
{
    match input {
        Input::Nothing => Ok(None),
        Input::Request(floor) => match elevator.move_to(floor) {
            Ok(()) => Ok(None),
            Err(e) => Ok(Some(e)),
        },
        Input::Malformed => Ok(Some(ElevatorError::InvalidFloorText)),
        Input::Disconnected => Err(ElevatorError::ChannelDisconnected),
    }
}

/// One cycle of the control loop: the car is handed the input and then
/// advances by one tick. The result is the error to show with the car on
/// this cycle's display, if any. Where the feed has gone away the run ends:
/// the car is left as it is and the result is `Err`.
pub fn cycle(elevator: &mut Elevator, input: Input) -> (r: Result<
    Option<ElevatorError>,
    ElevatorError,
>)
    requires
        old(elevator)@.wf(),
        !(input is Disconnected) ==> i64::MIN <= input.applied_to(old(elevator)@).tick().cur
            <= i64::MAX,
    ensures
        final(elevator)@.wf(),
        input is Disconnected ==> final(elevator)@ == old(elevator)@ && r == Err::<
            Option<ElevatorError>,
            ElevatorError,
        >(ElevatorError::ChannelDisconnected),
        !(input is Disconnected) ==> final(elevator)@ == input.applied_to(old(elevator)@).tick()
            && r == Ok::<Option<ElevatorError>, ElevatorError>(input.shown()),
        match r {
            Ok(Some(e)) => !e.is_fatal(),
            Ok(None) => true,
            Err(e) => e.is_fatal(),
        },
{
    match receive(elevator, input) {
        Ok(shown) => {
            elevator.tick();
            Ok(shown)
        },
        Err(fatal) => Err(fatal),
    }
}

/// What follows from drawing the display at the end of a cycle: the loop
/// goes on if it was drawn, and ends with a fatal error if it could not be.
pub fn after_display(drawn: bool) -> (r: Result<(), ElevatorError>)
    ensures
        r == if drawn {
            Ok::<(), ElevatorError>(())
        } else {
            Err::<(), ElevatorError>(ElevatorError::DisplayIOFailure)
        },
        r is Err ==> r->Err_0.is_fatal(),
{
    if drawn {
        Ok(())
    } else {
        Err(ElevatorError::DisplayIOFailure)
    }
}

} // verus!
