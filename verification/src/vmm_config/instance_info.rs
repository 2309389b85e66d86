//! What a microVM is called, and what state it is in.

use vstd::prelude::*;

verus! {

/// The state of a microVM.
#[derive(Debug, Clone, Copy, PartialEq, Eq, Structural)]
pub enum VmState {
    /// It is not started.
    NotStarted,
    /// It is paused.
    Paused,
    /// It is running.
    Running,
}

/// A microVM, as it is known to its users.
#[derive(Debug)]
pub struct InstanceInfo {
    /// Identifier.
    pub id: String,
    /// State.
    pub state: VmState,
}

} // verus!
