//! Control commands shared between the console and the connections.

use vstd::prelude::*;

verus! {

/// Control commands broadcast to all connections.
#[derive(Debug, Clone, Copy, PartialEq, Eq, Structural)]
pub enum ControlCommand {
    /// Drop all clients.
    DisconnectAll,
}

} // verus!
