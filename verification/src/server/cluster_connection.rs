use vstd::prelude::*;

use crate::domain::node_id::NodeId;

verus! {

/// What syncing with a sender's term asks of the server.
#[derive(Debug, Clone, Copy, PartialEq, Eq, Structural)]
pub enum SyncTermSideEffect {
    Downgrade,
    NoEffect,
}

/// A server's link to the rest of the cluster, and the latest term it has seen.
#[derive(Debug, Clone, Copy)]
pub struct ClusterConnection {
    node_id: NodeId,
    /// Latest term Server has seen. Initialised to 0 on first boot,
    /// increases monotonically.
    current_term: usize,
}

impl ClusterConnection {
    pub closed spec fn node_id_spec(&self) -> NodeId {
        self.node_id
    }

    pub closed spec fn current_term_spec(&self) -> usize {
        self.current_term
    }

    pub fn new(node_id: NodeId) -> (c: Self)
        ensures
            c.node_id_spec() == node_id,
            c.current_term_spec() == 0,
    {
        Self { node_id, current_term: 0 }
    }

    pub fn node_id(&self) -> (r: NodeId)
        ensures
            r == self.node_id_spec(),
    {
        self.node_id
    }

    pub fn current_term(&self) -> (r: usize)
        ensures
            r == self.current_term_spec(),
    {
        self.current_term
    }

    /// Adopts `sender_term` when it is newer than the current term; the
    /// server must then step down.
    pub fn sync_term(&mut self, sender_term: usize) -> (effect: SyncTermSideEffect)
        ensures
            final(self).node_id_spec() == old(self).node_id_spec(),
            old(self).current_term_spec() < sender_term ==> final(self).current_term_spec()
                == sender_term && effect == SyncTermSideEffect::Downgrade,
            old(self).current_term_spec() >= sender_term ==> final(self).current_term_spec()
                == old(self).current_term_spec() && effect == SyncTermSideEffect::NoEffect,
    {
        if self.current_term < sender_term {
            self.current_term = sender_term;
            return SyncTermSideEffect::Downgrade;
        }
        SyncTermSideEffect::NoEffect
    }

    pub fn increment_term(&mut self)
        requires
            old(self).current_term_spec() < usize::MAX,
        ensures
            final(self).node_id_spec() == old(self).node_id_spec(),
            final(self).current_term_spec() == old(self).current_term_spec() + 1,
    {
        self.current_term = self.current_term + 1;
    }
}

} // verus!
