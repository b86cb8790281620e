//! A registry of polls: clients create polls, cast at most one vote each per
//! poll, and read the running tallies.
//!
//! [`Registry`] holds the polls and offers the operations. [`model`] says
//! what a poll and a registry are and what each operation does to them,
//! [`history`] what holds after any sequence of operations.
pub mod error;
pub mod history;
pub mod identity;
pub mod model;
pub mod poll;
pub mod registry;

pub use error::ErrorKind;
pub use identity::Caller;
pub use poll::{Poll, PollId};
pub use registry::Registry;
