pub mod request;

use vstd::prelude::*;

use crate::state_machine::{Command, Op, StateKey};
use crate::timeout::random_in_inclusive_range;

verus! {

/// A client, once given the means to reach the cluster, becomes its connected form.
pub trait Client<PeerList> {
    type NextType;

    fn connect_to_cluster(self, peer_list: PeerList) -> Self::NextType;
}

/// A client that sends random commands, before it is connected to a cluster.
#[derive(Debug, Clone)]
pub struct DisconnectedRandomDataClient {
    id: String,
    min_request_interval_ms: u64,
    max_request_interval_ms: u64,
}

impl DisconnectedRandomDataClient {
    pub closed spec fn id_spec(&self) -> Seq<char> {
        self.id@
    }

    pub closed spec fn min_request_interval_spec(&self) -> u64 {
        self.min_request_interval_ms
    }

    pub closed spec fn max_request_interval_spec(&self) -> u64 {
        self.max_request_interval_ms
    }

    pub fn id(&self) -> (r: &String)
        ensures
            r@ == self.id_spec(),
    {
        &self.id
    }

    /// Sets the range of pauses between two requests; `min < max`.
    pub fn with_request_interval_range(self, min: u64, max: u64) -> (c: Self)
        requires
            min < max,
        ensures
            c.id_spec() == self.id_spec(),
            c.min_request_interval_spec() == min,
            c.max_request_interval_spec() == max,
    {
        let mut c = self;
        c.min_request_interval_ms = min;
        c.max_request_interval_ms = max;
        c
    }
}

impl<PeerList> Client<PeerList> for DisconnectedRandomDataClient {
    type NextType = RandomDataClient<PeerList>;

    fn connect_to_cluster(self, peer_list: PeerList) -> (c: RandomDataClient<PeerList>)
        ensures
            c.id_spec() == self.id_spec(),
            c.peer_list_spec() == peer_list,
            c.min_request_interval_spec() == self.min_request_interval_spec(),
            c.max_request_interval_spec() == self.max_request_interval_spec(),
    {
        RandomDataClient {
            id: self.id,
            peer_list,
            min_request_interval_ms: self.min_request_interval_ms,
            max_request_interval_ms: self.max_request_interval_ms,
        }
    }
}

/// The operation at `i` of the list `Increment`, `Decrement`, `Replace`.
pub open spec fn op_at(i: u64) -> Op {
    if i == 0 {
        Op::Increment
    } else if i == 1 {
        Op::Decrement
    } else {
        Op::Replace
    }
}

/// The key at `i` of the list `X`, `Y`, `Z`.
pub open spec fn key_at(i: u64) -> StateKey {
    if i == 0 {
        StateKey::X
    } else if i == 1 {
        StateKey::Y
    } else {
        StateKey::Z
    }
}

/// A client that sends random commands to the servers of a cluster.
#[derive(Debug, Clone)]
pub struct RandomDataClient<PeerList> {
    id: String,
    peer_list: PeerList,
    min_request_interval_ms: u64,
    max_request_interval_ms: u64,
}

impl RandomDataClient<()> {
    /// A client named `[ RndmDataClient ]` that pauses 150 to 300 ms between requests.
    pub fn init() -> (c: DisconnectedRandomDataClient)
        ensures
            c.id_spec() == "[ RndmDataClient ]"@,
            c.min_request_interval_spec() == 150,
            c.max_request_interval_spec() == 300,
    {
        DisconnectedRandomDataClient {
            id: String::from_str("[ RndmDataClient ]"),
            min_request_interval_ms: 150,
            max_request_interval_ms: 300,
        }
    }
}

impl<PeerList> RandomDataClient<PeerList> {
    pub closed spec fn id_spec(&self) -> Seq<char> {
        self.id@
    }

    pub closed spec fn peer_list_spec(&self) -> PeerList {
        self.peer_list
    }

    pub closed spec fn min_request_interval_spec(&self) -> u64 {
        self.min_request_interval_ms
    }

    pub closed spec fn max_request_interval_spec(&self) -> u64 {
        self.max_request_interval_ms
    }

    pub fn id(&self) -> (r: &String)
        ensures
            r@ == self.id_spec(),
    {
        &self.id
    }

    pub fn peer_list(&self) -> (r: &PeerList)
        ensures
            *r == self.peer_list_spec(),
    {
        &self.peer_list
    }

    pub fn min_request_interval_ms(&self) -> (r: u64)
        ensures
            r == self.min_request_interval_spec(),
    {
        self.min_request_interval_ms
    }

    pub fn max_request_interval_ms(&self) -> (r: u64)
        ensures
            r == self.max_request_interval_spec(),
    {
        self.max_request_interval_ms
    }

    /// The command made of the operation and key at the given positions of
    /// their lists and the given operand.
    pub fn command_from_draws(op_index: u64, key_index: u64, value: u64) -> (c: Command)
        requires
            op_index < 3,
            key_index < 3,
            value <= 100,
        ensures
            c.op_spec() == op_at(op_index),
            c.key_spec() == key_at(key_index),
            c.value_spec() == value,
    {
        let op = if op_index == 0 {
            Op::Increment
        } else if op_index == 1 {
            Op::Decrement
        } else {
            Op::Replace
        };
        let key = if key_index == 0 {
            StateKey::X
        } else if key_index == 1 {
            StateKey::Y
        } else {
            StateKey::Z
        };
        Command::new(op, key, value as i64)
    }

    /// A random write command: a random operation on a random key, with an
    /// operand drawn from 0 to 100.
    pub fn random_command() -> (c: Command)
        ensures
            0 <= c.value_spec() <= 100,
    {
        let op_index = random_in_inclusive_range(0, 2);
        let key_index = random_in_inclusive_range(0, 2);
        let value = random_in_inclusive_range(0, 100);
        Self::command_from_draws(op_index, key_index, value)
    }
}

} // verus!
