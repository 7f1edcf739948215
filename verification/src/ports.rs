//! Errors of the hypervisor ports that the router reads and writes.

use vstd::prelude::*;

verus! {

/// An error occured while reading or writing a port of the router.
#[derive(Clone, Copy, Debug, PartialEq, Eq, Structural)]
pub enum PortError {
    /// Operation would block
    WouldBlock,
    /// Failed to send from router output
    Send,
    /// Failed to receive from router input
    Receive,
    /// Creating of the router input / output failed
    Create,
}

impl PortError {
    /// A sentence that describes the error.
    pub fn message(&self) -> (s: &'static str)
        ensures
            *self == PortError::Send ==> s@ == "Failed to send from router output"@,
            *self == PortError::Receive ==> s@ == "Failed to receive from router input"@,
            *self == PortError::Create ==> s@ == "Failed to create router port"@,
            *self == PortError::WouldBlock ==> s@ == "Operation would block"@,
    {
        match self {
            PortError::Send => "Failed to send from router output",
            PortError::Receive => "Failed to receive from router input",
            PortError::Create => "Failed to create router port",
            PortError::WouldBlock => "Operation would block",
        }
    }
}

} // verus!
