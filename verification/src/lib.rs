//! A single elevator car serving a fixed range of floors.
//!
//! The car keeps a set of pending stops, a motion state and a travel
//! direction, and advances by one discrete step per tick. Every operation is
//! specified against a mathematical model of the car (see [`model`]), and the
//! properties that relate several operations are proved in [`laws`].

pub mod control;
pub mod display;
pub mod elevator;
pub mod error;
pub mod floor;
pub mod laws;
pub mod model;
pub mod motion;
pub mod queue;
pub mod text;

pub use crate::control::Input;
pub use crate::elevator::Elevator;
pub use crate::error::ElevatorError;
pub use crate::floor::Floor;
pub use crate::motion::{Dir, State};
