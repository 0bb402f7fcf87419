//! What can go wrong while the car is being driven.

use vstd::prelude::*;
use crate::floor::Floor;

verus! {

/// The errors of the elevator. The first two are shown for one display cycle
/// and leave the car untouched; the last two end the run.
#[derive(Clone, Copy, Debug, PartialEq, Eq, Structural)]
pub enum ElevatorError {
    /// The input text is not a floor number.
    InvalidFloorText,
    /// The requested floor, carried here, lies outside the serviceable range.
    OutOfRange(Floor),
    /// The source of input has gone away.
    ChannelDisconnected,
    /// The display could not be drawn.
    DisplayIOFailure,
}

impl ElevatorError {
    /// Whether the run has to end on this error.
    pub open spec fn spec_is_fatal(self) -> bool {
        self is ChannelDisconnected || self is DisplayIOFailure
    }

    /// Whether the run has to end on this error.
    #[verifier::when_used_as_spec(spec_is_fatal)]
    pub fn is_fatal(self) -> (r: bool)
        ensures
            r == self.spec_is_fatal(),
    {
        match self {
            ElevatorError::ChannelDisconnected | ElevatorError::DisplayIOFailure => true,
            _ => false,
        }
    }
}

} // verus!
