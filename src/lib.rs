//! Coordination logic of a networked receipt printer: word wrapping and print jobs,
//! the power-loss monitor, the network link supervisor, the broker session and the
//! status it publishes, and the device configuration.
//!
//! The supervisors are state machines: each step takes what happened and returns
//! the next state and the action to perform, so the code that performs the actions
//! (radio, sockets, timers, the serial port) stays outside and the decisions are
//! proved here.
use vstd::prelude::*;

pub mod capabilities;
pub mod config;
pub mod format;
pub mod identity;
pub mod link;
pub mod power;
pub mod printer;
pub mod session;
pub mod status;

verus! {

} // verus!
