//! A cooperative cancellation signal for asynchronous work.
//!
//! [`Stopper`] is a cheaply clonable flag with a broadcast wake-up. The
//! suspend-and-check protocol by which a wrapped computation, sequence or
//! awaiter observes it is the state machine in [`protocol`].
pub mod protocol;
pub mod signal;
pub mod stopped;

pub use protocol::{Action, Observation, Stage, Watch};
pub use signal::Stopper;
pub use stopped::Stopped;
