//! Device-control gateway core: a capability model for motor axes and
//! controllers, a serialized command dispatcher with a TTL-bounded attribute
//! cache, and the line protocol that a socket front end speaks to clients.
//!
//! Everything here is verified. The asynchronous transport (socket accept
//! loop, per-connection tasks, the command channel) lives in the accompanying
//! application crate and only moves plain values in and out of this library.

pub mod axis;
pub mod cache;
pub mod errors;
pub mod jsontext;
pub mod manager;
pub mod motor_controller;
pub mod protocol;
pub mod session;
pub mod sim;
pub mod strings;
pub mod wire;
