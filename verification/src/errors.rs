//! The error value that every fallible device operation returns.
//!
//! All domain failures (controller or axis not found, unsupported attribute
//! or movement parameter, backend faults) are carried as a plain message
//! string, which the protocol layer embeds verbatim in an error response.

use vstd::prelude::*;

verus! {

/// A failure reported by a controller, an axis, or the dispatcher.
#[derive(Debug, Clone)]
pub struct DeviceError {
    pub message: String,
}

impl DeviceError {
    /// Wraps a ready-made message.
    pub fn new(message: String) -> (r: DeviceError)
        ensures
            r.message@ == message@,
    {
        DeviceError { message }
    }

    /// The message shown to clients.
    pub fn text(&self) -> (r: String)
        ensures
            r@ == self.message@,
    {
        self.message.clone()
    }
}

} // verus!
