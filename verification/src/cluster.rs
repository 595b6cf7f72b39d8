use vstd::prelude::*;

verus! {

/// The settings of a Raft cluster: how many servers it runs, how often the
/// leader sends heartbeats, and the range of election timeouts (milliseconds).
#[derive(Debug, Clone, Copy, PartialEq, Eq, Structural)]
pub struct ClusterConfig {
    node_count: u64,
    heartbeat_interval: u64,
    min_election_timeout_ms: u64,
    max_election_timeout_ms: u64,
}

impl ClusterConfig {
    pub closed spec fn node_count_spec(&self) -> u64 {
        self.node_count
    }

    pub closed spec fn heartbeat_interval_spec(&self) -> u64 {
        self.heartbeat_interval
    }

    pub closed spec fn min_election_timeout_spec(&self) -> u64 {
        self.min_election_timeout_ms
    }

    pub closed spec fn max_election_timeout_spec(&self) -> u64 {
        self.max_election_timeout_ms
    }

    pub fn with_node_count(self, node_count: u64) -> (c: Self)
        requires
            node_count > 0,
        ensures
            c.node_count_spec() == node_count,
            c.heartbeat_interval_spec() == self.heartbeat_interval_spec(),
            c.min_election_timeout_spec() == self.min_election_timeout_spec(),
            c.max_election_timeout_spec() == self.max_election_timeout_spec(),
    {
        let mut c = self;
        c.node_count = node_count;
        c
    }

    pub fn with_election_timeout_range(self, min: u64, max: u64) -> (c: Self)
        requires
            min < max,
        ensures
            c.node_count_spec() == self.node_count_spec(),
            c.heartbeat_interval_spec() == self.heartbeat_interval_spec(),
            c.min_election_timeout_spec() == min,
            c.max_election_timeout_spec() == max,
    {
        let mut c = self;
        c.min_election_timeout_ms = min;
        c.max_election_timeout_ms = max;
        c
    }

    pub fn with_heartbeat_interval(self, interval_ms: u64) -> (c: Self)
        requires
            interval_ms > 0,
        ensures
            c.node_count_spec() == self.node_count_spec(),
            c.heartbeat_interval_spec() == interval_ms,
            c.min_election_timeout_spec() == self.min_election_timeout_spec(),
            c.max_election_timeout_spec() == self.max_election_timeout_spec(),
    {
        let mut c = self;
        c.heartbeat_interval = interval_ms;
        c
    }

    pub fn node_count(&self) -> (r: u64)
        ensures
            r == self.node_count_spec(),
    {
        self.node_count
    }

    pub fn heartbeat_interval(&self) -> (r: u64)
        ensures
            r == self.heartbeat_interval_spec(),
    {
        self.heartbeat_interval
    }

    pub fn min_election_timeout_ms(&self) -> (r: u64)
        ensures
            r == self.min_election_timeout_spec(),
    {
        self.min_election_timeout_ms
    }

    pub fn max_election_timeout_ms(&self) -> (r: u64)
        ensures
            r == self.max_election_timeout_spec(),
    {
        self.max_election_timeout_ms
    }
}

impl Default for ClusterConfig {
    /// Five servers, a heartbeat every 50 ms, election timeouts of 150 to 300 ms.
    fn default() -> (c: Self)
        ensures
            c.node_count_spec() == 5,
            c.heartbeat_interval_spec() == 50,
            c.min_election_timeout_spec() == 150,
            c.max_election_timeout_spec() == 300,
    {
        Self {
            node_count: 5,
            heartbeat_interval: 50,
            min_election_timeout_ms: 150,
            max_election_timeout_ms: 300,
        }
    }
}

} // verus!
