use vstd::prelude::*;

use crate::state_machine::InMemoryStateMachineSnapshot;

verus! {

/// ClientResponse represents a response received from a Client.
#[derive(Debug, Clone, Copy, PartialEq, Eq, Structural)]
pub struct ClientResponse {
    success: bool,
    snapshot: InMemoryStateMachineSnapshot,
}

impl ClientResponse {
    pub closed spec fn success_spec(&self) -> bool {
        self.success
    }

    pub closed spec fn snapshot_spec(&self) -> InMemoryStateMachineSnapshot {
        self.snapshot
    }

    pub fn new(success: bool, snapshot: InMemoryStateMachineSnapshot) -> (r: Self)
        ensures
            r.success_spec() == success,
            r.snapshot_spec() == snapshot,
    {
        Self { success, snapshot }
    }

    pub fn success(&self) -> (r: bool)
        ensures
            r == self.success_spec(),
    {
        self.success
    }

    pub fn snapshot(&self) -> (r: &InMemoryStateMachineSnapshot)
        ensures
            *r == self.snapshot_spec(),
    {
        &self.snapshot
    }
}

} // verus!
