pub mod cluster_connection;
pub mod log;
pub mod peer_list;
pub mod request;
pub mod volatile_leader_state;

use vstd::prelude::*;

use crate::client::request::ClientResponse;
use crate::domain::node_id::NodeId;
use crate::server::log::{ServerLog, ServerLogEntry};
use crate::server::request::{
    Message, ServerMessagePayload, ServerRequest, ServerRequestBody, ServerRequestHeaders, ServerResponse,
    ServerResponseBody, ServerResponseHeaders,
};
use crate::server::volatile_leader_state::{committable_index_spec, id_bits, VolatileLeaderState};
use crate::state_machine::{Command, InMemoryStateMachine};
use crate::timeout::TimeoutRange;

verus! {

/// At any given time each server is in one of three states:
/// leader, follower, or candidate.
#[derive(Debug, Clone, Copy, PartialEq, Eq, Structural)]
pub enum ServerState {
    Leader,
    Follower,
    Candidate,
}

/// A candidate wins an election if it receives votes from a majority of the
/// servers in the full cluster: with its own vote, more than half of the
/// cluster made of itself and its `peers` peers.
pub open spec fn wins_election(votes: nat, peers: nat) -> bool {
    (votes + 1) * 2 > peers + 1
}

/// The votes a candidate has received in the election of one term: the peers
/// that granted them, each counted once.
#[derive(Debug, Clone)]
pub struct VoteTally {
    term: usize,
    voters: Vec<NodeId>,
}

impl VoteTally {
    pub closed spec fn term_spec(&self) -> usize {
        self.term
    }

    pub closed spec fn voters_spec(&self) -> Seq<NodeId> {
        self.voters@
    }

    /// The number of votes counted.
    pub open spec fn votes_spec(&self) -> nat {
        self.voters_spec().len()
    }

    /// No votes yet, in the election of `term`.
    pub fn new(term: usize) -> (t: Self)
        ensures
            t.term_spec() == term,
            t.voters_spec() == Seq::<NodeId>::empty(),
    {
        Self { term, voters: Vec::new() }
    }

    pub fn term(&self) -> (r: usize)
        ensures
            r == self.term_spec(),
    {
        self.term
    }

    pub fn votes(&self) -> (r: usize)
        ensures
            r == self.votes_spec(),
    {
        self.voters.len()
    }

    /// The peers whose votes were counted, in the order they came.
    pub fn voters(&self) -> (r: &Vec<NodeId>)
        ensures
            r@ == self.voters_spec(),
    {
        &self.voters
    }
}

/// Whether `id` is among `ids`.
fn contains_id(ids: &Vec<NodeId>, id: &NodeId) -> (r: bool)
    ensures
        r == ids@.contains(*id),
{
    let mut i: usize = 0;
    while i < ids.len()
        invariant
            i <= ids@.len(),
            forall|j: int| 0 <= j < i ==> ids@[j] != *id,
        decreases ids@.len() - i,
    {
        if ids[i] == *id {
            return true;
        }
        i = i + 1;
    }
    false
}

/// Whether a server in term `current_term`, having voted for `voted_for`,
/// grants its vote to `candidate` asking in `request_term`. Each server votes
/// for at most one candidate in a given term, on a first-come-first-served
/// basis: it grants the vote when the request opens a newer term, or when the
/// request is of its own term and it has voted for no one else.
pub open spec fn grants_vote(
    current_term: usize,
    voted_for: Option<NodeId>,
    request_term: usize,
    candidate: NodeId,
) -> bool {
    ||| request_term > current_term
    ||| request_term == current_term && (voted_for is None || voted_for == Some(candidate))
}

/// Whether a server in `state` and term `current_term` accepts an
/// `AppendEntries` request of `request_term`. A follower or a candidate
/// accepts it unless its term is behind its own; a leader accepts only one of
/// a newer term, from which it learns that its own term is out of date.
pub open spec fn accepts_append_entries(
    state: ServerState,
    current_term: usize,
    request_term: usize,
) -> bool {
    if state == ServerState::Leader {
        request_term > current_term
    } else {
        request_term >= current_term
    }
}

/// The index recorded in the last entry of `log`, or `default` when it is empty.
pub open spec fn last_index_or(log: Seq<ServerLogEntry>, default: int) -> int {
    if log.len() == 0 {
        default
    } else {
        log.last().index_spec() as int
    }
}

/// Each server votes for at most one candidate in a given term: once it has
/// voted for `a` in its current term, it grants no vote to another candidate
/// `b` asking in that term (or an older one).
pub proof fn lemma_votes_once_per_term(
    current_term: usize,
    a: NodeId,
    request_term: usize,
    b: NodeId,
)
    requires
        a != b,
        request_term <= current_term,
    ensures
        !grants_vote(current_term, Some(a), request_term, b),
{
}

/// The majority rule ensures that at most one candidate can win the election
/// for a particular term. Two servers `a` and `b` of one cluster, each holding
/// a winning tally that counts its peers at most once, share a voter (each
/// candidate's own vote counted). As a server votes for at most one candidate
/// in a term, two candidates of one term cannot both win.
pub proof fn lemma_two_winners_share_a_voter(a: Server, ta: VoteTally, b: Server, tb: VoteTally)
    requires
        a.wf(),
        b.wf(),
        a.peers_spec().to_set().insert(a.id_spec()) == b.peers_spec().to_set().insert(b.id_spec()),
        a.counts_for(ta),
        b.counts_for(tb),
        wins_election(ta.votes_spec(), a.peers_spec().len()),
        wins_election(tb.votes_spec(), b.peers_spec().len()),
    ensures
        exists|v: NodeId|
            (v == a.id_spec() || ta.voters_spec().contains(v)) && (v == b.id_spec()
                || tb.voters_spec().contains(v)),
{
    let cluster = a.peers_spec().to_set().insert(a.id_spec());
    let va = ta.voters_spec().to_set().insert(a.id_spec());
    let vb = tb.voters_spec().to_set().insert(b.id_spec());
    a.peers_spec().unique_seq_to_set();
    b.peers_spec().unique_seq_to_set();
    ta.voters_spec().unique_seq_to_set();
    tb.voters_spec().unique_seq_to_set();
    assert(!a.peers_spec().to_set().contains(a.id_spec()));
    assert(!b.peers_spec().to_set().contains(b.id_spec()));
    assert(!ta.voters_spec().to_set().contains(a.id_spec()));
    assert(!tb.voters_spec().to_set().contains(b.id_spec()));
    assert(cluster.len() == a.peers_spec().len() + 1);
    assert(cluster.len() == b.peers_spec().len() + 1);
    assert(va.subset_of(cluster));
    assert(vb.subset_of(cluster));
    if !(exists|v: NodeId| va.contains(v) && vb.contains(v)) {
        assert(va.disjoint(vb));
        vstd::set_lib::lemma_set_disjoint_lens(va, vb);
        assert((va + vb).subset_of(cluster));
        vstd::set_lib::lemma_len_subset(va + vb, cluster);
        assert(false);
    }
    let v = choose|v: NodeId| va.contains(v) && vb.contains(v);
    assert((v == a.id_spec() || ta.voters_spec().contains(v)) && (v == b.id_spec()
        || tb.voters_spec().contains(v)));
}

/// A stale request never succeeds: a server grants no vote and accepts no
/// `AppendEntries` request whose term is behind its own.
pub proof fn lemma_stale_requests_rejected(
    state: ServerState,
    current_term: usize,
    voted_for: Option<NodeId>,
    request_term: usize,
    candidate: NodeId,
)
    requires
        request_term < current_term,
    ensures
        !grants_vote(current_term, voted_for, request_term, candidate),
        !accepts_append_entries(state, current_term, request_term),
{
}

/// A request of a newer term is always granted or accepted, whatever the
/// server's state: the server thereby learns that its term is out of date.
pub proof fn lemma_newer_term_always_wins(
    state: ServerState,
    current_term: usize,
    voted_for: Option<NodeId>,
    request_term: usize,
    candidate: NodeId,
)
    requires
        request_term > current_term,
    ensures
        grants_vote(current_term, voted_for, request_term, candidate),
        accepts_append_entries(state, current_term, request_term),
{
}

/// The position in a log of the entry with index `next`: log indices count
/// from 1, positions from 0 (position 0 for an index of 0).
pub open spec fn first_position(next: usize) -> int {
    if next > 0 {
        next - 1
    } else {
        0
    }
}

/// Entry `i` is the first entry of `log` recorded under `index`.
pub open spec fn is_first_with_index(log: Seq<ServerLogEntry>, i: int, index: int) -> bool {
    &&& 0 <= i < log.len()
    &&& log[i].index_spec() == index
    &&& forall|j: int| 0 <= j < i ==> #[trigger] log[j].index_spec() != index
}

/// The index and term of the first entry of `log` recorded under `next - 1`,
/// or `(0, 0)` when `next` is 0 or there is no such entry.
pub open spec fn prev_log_position(log: Seq<ServerLogEntry>, next: usize) -> (usize, usize) {
    if next > 0 && exists|i: int| #[trigger] is_first_with_index(log, i, next - 1) {
        let i = choose|i: int| #[trigger] is_first_with_index(log, i, next - 1);
        (log[i].index_spec(), log[i].term_spec())
    } else {
        (0, 0)
    }
}

/// `new` and `res` are what a server `old` becomes and answers on `req`.
///
/// An `AppendEntries` request is accepted as `accepts_append_entries` says;
/// then the server adopts the request's term, records the sender as the
/// leader it follows (and, as its vote, the leader it acknowledges) and is,
/// or returns to being, a follower. A `RequestVote` request is granted as
/// `grants_vote` says; then the server adopts the request's term, records
/// its vote and is a follower, forgetting the leader when the term is new.
/// A request of a newer term is always granted or accepted, so a candidate
/// or leader that discovers its term is out of date reverts to follower.
/// The answer carries the server's identifier and its current term once it
/// has handled the request, so a granted vote carries the term it was
/// granted in.
pub open spec fn answers_request(old: Server, new: Server, req: ServerRequest, res: ServerResponse) -> bool {
    &&& res.headers_spec() == (ServerResponseHeaders {
        node_id: old.id_spec(),
        term: new.current_term_spec(),
    })
    &&& new.same_besides_election(&old)
    &&& new.current_term_spec() >= old.current_term_spec()
    &&& req.headers_spec().term > old.current_term_spec() ==> {
        &&& new.current_term_spec() == req.headers_spec().term
        &&& new.state_spec() == ServerState::Follower
    }
    &&& match req.body_spec() {
        ServerRequestBody::AppendEntries { leader_id, .. } => {
            let success = accepts_append_entries(
                old.state_spec(),
                old.current_term_spec(),
                req.headers_spec().term,
            );
            &&& res.body_spec() == (ServerResponseBody::AppendEntries { success })
            &&& success ==> {
                &&& new.current_term_spec() == req.headers_spec().term
                &&& new.voted_for_spec() == Some(leader_id)
                &&& new.current_leader_spec() == Some(leader_id)
                &&& new.state_spec() == ServerState::Follower
            }
            &&& !success ==> {
                &&& new.current_term_spec() == old.current_term_spec()
                &&& new.voted_for_spec() == old.voted_for_spec()
                &&& new.current_leader_spec() == old.current_leader_spec()
                &&& new.state_spec() == old.state_spec()
            }
        },
        ServerRequestBody::RequestVote { candidate_id } => {
            let vote_granted = grants_vote(
                old.current_term_spec(),
                old.voted_for_spec(),
                req.headers_spec().term,
                candidate_id,
            );
            &&& res.body_spec() == (ServerResponseBody::RequestVote { vote_granted })
            &&& vote_granted ==> {
                &&& new.current_term_spec() == req.headers_spec().term
                &&& new.voted_for_spec() == Some(candidate_id)
                &&& new.current_leader_spec() == (if req.headers_spec().term
                    > old.current_term_spec() {
                    None
                } else {
                    old.current_leader_spec()
                })
                &&& new.state_spec() == ServerState::Follower
            }
            &&& !vote_granted ==> {
                &&& new.current_term_spec() == old.current_term_spec()
                &&& new.voted_for_spec() == old.voted_for_spec()
                &&& new.current_leader_spec() == old.current_leader_spec()
                &&& new.state_spec() == old.state_spec()
            }
        },
    }
}

/// Each server votes for at most one candidate in a given term: once it has
/// granted its vote to `a` in a term, it refuses a later `RequestVote` request
/// of another candidate in that same term.
pub proof fn lemma_one_vote_per_term_across_requests(
    s0: Server,
    s1: Server,
    s2: Server,
    req1: ServerRequest,
    res1: ServerResponse,
    req2: ServerRequest,
    res2: ServerResponse,
)
    requires
        answers_request(s0, s1, req1, res1),
        answers_request(s1, s2, req2, res2),
        req1.body_spec() is RequestVote,
        res1.body_spec() == (ServerResponseBody::RequestVote { vote_granted: true }),
        req2.body_spec() matches ServerRequestBody::RequestVote { candidate_id }
            && req1.body_spec() matches ServerRequestBody::RequestVote { candidate_id: first }
            && candidate_id != first,
        req2.headers_spec().term == req1.headers_spec().term,
    ensures
        res2.body_spec() == (ServerResponseBody::RequestVote { vote_granted: false }),
        s2.voted_for_spec() == s1.voted_for_spec(),
{
}

/// A response counts as a vote for a candidate `s` holding `tally`: it grants
/// the vote in the term of the election that the tally counts, which is the
/// candidate's current term, and it comes from a peer whose vote the tally has
/// not counted yet.
pub open spec fn counts_as_vote(s: Server, tally: VoteTally, res: ServerResponse) -> bool {
    &&& res.body_spec() == (ServerResponseBody::RequestVote { vote_granted: true })
    &&& res.headers_spec().term == s.current_term_spec()
    &&& tally.term_spec() == s.current_term_spec()
    &&& s.peers_spec().contains(res.headers_spec().node_id)
    &&& !tally.voters_spec().contains(res.headers_spec().node_id)
}

/// `s` holds the leader's state of a server that has just come to power: the
/// next index of every peer is just after the last index in its log (1 for an
/// empty log), and every match index is 0.
pub open spec fn leader_state_reset(s: Server) -> bool {
    &&& s.next_indices_spec().dom() == id_bits(s.peers_spec())
    &&& s.match_indices_spec().dom() == id_bits(s.peers_spec())
    &&& forall|k: u128| #[trigger] s.next_indices_spec().contains_key(k)
        ==> s.next_indices_spec()[k] == last_index_or(s.log_spec(), 0) + 1
    &&& forall|k: u128| #[trigger] s.match_indices_spec().contains_key(k)
        ==> s.match_indices_spec()[k] == 0
}

/// `new` is the candidate `old` once it has won: a leader, with the leader's
/// state reset, and otherwise unchanged.
pub open spec fn takes_office(old: Server, new: Server) -> bool {
    &&& new.state_spec() == ServerState::Leader
    &&& new.same_core(&old)
    &&& new.current_term_spec() == old.current_term_spec()
    &&& new.voted_for_spec() == old.voted_for_spec()
    &&& new.current_leader_spec() == old.current_leader_spec()
    &&& leader_state_reset(new)
}

/// `new` and `tally` are what `old` becomes and counts when it begins an
/// election: it increments its current term, votes for itself and forgets the
/// leader; its tally, of the new term, holds no vote yet. A server without
/// peers holds a majority with its own vote and comes to power at once; any
/// other is a candidate.
pub open spec fn begins_election(old: Server, new: Server, tally: VoteTally) -> bool {
    &&& new.current_term_spec() == old.current_term_spec() + 1
    &&& new.voted_for_spec() == Some(old.id_spec())
    &&& new.current_leader_spec() is None
    &&& tally.term_spec() == new.current_term_spec()
    &&& tally.voters_spec() == Seq::<NodeId>::empty()
    &&& new.same_core(&old)
    &&& if wins_election(0, old.peers_spec().len()) {
        &&& new.state_spec() == ServerState::Leader
        &&& leader_state_reset(new)
    } else {
        &&& new.state_spec() == ServerState::Candidate
        &&& new.same_besides_election(&old)
    }
}

/// `new` and `new_tally` are what a server `old` with `old_tally` becomes on
/// the response `res`.
///
/// A response of a newer term shows that the server's term is out of date:
/// the server adopts that term, forgets the leader and is a follower.
/// Otherwise a follower only notes a vote response. A candidate counts a
/// response as `counts_as_vote` says and, once it holds a majority of the full
/// cluster (its own vote included), takes office. A leader ignores vote
/// responses; when an `AppendEntries` request succeeded it sets its commit
/// index to its highest committable index (0 when it tracks no follower) and
/// the sender's next index to just after its last log entry (1 for an empty
/// log); when it failed it lowers the sender's next index by one, not below 1.
pub open spec fn takes_response(
    old: Server,
    new: Server,
    old_tally: VoteTally,
    new_tally: VoteTally,
    res: ServerResponse,
) -> bool {
    &&& new.voted_for_spec() == old.voted_for_spec()
    &&& res.headers_spec().term > old.current_term_spec() ==> {
        &&& new.current_term_spec() == res.headers_spec().term
        &&& new.state_spec() == ServerState::Follower
        &&& new.current_leader_spec() is None
        &&& new.same_besides_election(&old)
        &&& new_tally == old_tally
    }
    &&& res.headers_spec().term <= old.current_term_spec() ==> {
        &&& new.current_term_spec() == old.current_term_spec()
        &&& new.current_leader_spec() == old.current_leader_spec()
        &&& old.state_spec() == ServerState::Follower ==> {
            &&& new_tally == old_tally
            &&& new.same_besides_election(&old)
            &&& new.state_spec() == ServerState::Follower
        }
        &&& old.state_spec() == ServerState::Candidate ==> {
            let counted = counts_as_vote(old, old_tally, res);
            &&& new_tally.term_spec() == old_tally.term_spec()
            &&& new_tally.voters_spec() == (if counted {
                old_tally.voters_spec().push(res.headers_spec().node_id)
            } else {
                old_tally.voters_spec()
            })
            &&& if counted && wins_election(new_tally.votes_spec(), old.peers_spec().len()) {
                takes_office(old, new)
            } else {
                &&& new.state_spec() == ServerState::Candidate
                &&& new.same_besides_election(&old)
            }
        }
        &&& old.state_spec() == ServerState::Leader ==> {
            &&& new_tally == old_tally
            &&& new.same_besides_leader_state(&old)
            &&& new.match_indices_spec() == old.match_indices_spec()
            &&& match res.body_spec() {
                ServerResponseBody::AppendEntries { success } => {
                    let sender = res.headers_spec().node_id.bits();
                    let old_next = old.next_indices_spec();
                    if success {
                        &&& new.commit_index_spec() == match committable_index_spec(old_next) {
                            Some(i) => i,
                            None => 0usize,
                        }
                        &&& new.next_indices_spec() == old_next.insert(
                            sender,
                            (last_index_or(old.log_spec(), 0) + 1) as usize,
                        )
                    } else {
                        &&& new.commit_index_spec() == old.commit_index_spec()
                        &&& new.next_indices_spec() == (if old_next.contains_key(sender)
                            && old_next[sender] > 1 {
                            old_next.insert(sender, (old_next[sender] - 1) as usize)
                        } else {
                            old_next
                        })
                    }
                },
                ServerResponseBody::RequestVote { .. } => {
                    &&& new.commit_index_spec() == old.commit_index_spec()
                    &&& new.next_indices_spec() == old.next_indices_spec()
                },
            }
        }
    }
}

/// What `s`, holding `tally`, can be handed: any request, and a response that
/// it has an answer for (only a leader takes `AppendEntries` responses), and
/// that does not push an index past the machine's limit when the server comes
/// to power or advances a follower.
pub open spec fn can_take_message(s: Server, tally: VoteTally, msg: Message) -> bool {
    msg matches Message::Response(res) ==> can_take_response(s, tally, res)
}

/// What `s`, holding `tally`, can be handed as a response: see `can_take_message`.
pub open spec fn can_take_response(s: Server, tally: VoteTally, res: ServerResponse) -> bool {
    &&& s.state_spec() != ServerState::Leader ==> res.body_spec() is RequestVote
    &&& s.state_spec() == ServerState::Candidate && counts_as_vote(s, tally, res) ==> last_index_or(
        s.log_spec(),
        0,
    ) < usize::MAX
    &&& s.state_spec() == ServerState::Leader ==> last_index_or(s.log_spec(), 0) < usize::MAX
}

/// What a server does after a message from another server.
#[derive(Debug, Clone)]
pub struct MessageOutcome {
    /// The response to send, and the server it goes to.
    pub reply: Option<(NodeId, ServerResponse)>,
    /// Whether the election timer starts afresh: a follower waits anew after
    /// every message; a candidate keeps the timer of its election; a leader
    /// has none.
    pub restart_election_timer: bool,
}

/// `new`, `new_tally` and `out` are what `old`, holding `old_tally`, becomes,
/// counts and does on `msg`: a request is answered as `answers_request` says,
/// with exactly one response that goes to its sender; a response is taken as
/// `takes_response` says and answered with nothing.
pub open spec fn handles_message(
    old: Server,
    new: Server,
    old_tally: VoteTally,
    new_tally: VoteTally,
    msg: Message,
    out: MessageOutcome,
) -> bool {
    &&& out.restart_election_timer == (new.state_spec() == ServerState::Follower)
    &&& match msg {
        Message::Request(req) => {
            &&& out.reply matches Some((to, res)) && to == req.headers_spec().node_id
                && answers_request(old, new, req, res)
            &&& new_tally == old_tally
        },
        Message::Response(res) => {
            &&& out.reply is None
            &&& takes_response(old, new, old_tally, new_tally, res)
        },
    }
}

/// Followers are passive: they issue no requests of their own but simply
/// respond to requests from leaders and candidates. Over any sequence of
/// messages, a follower stays a follower, answers each request with exactly one
/// response, which goes to the request's sender, and answers no response.
pub proof fn lemma_followers_are_passive(
    servers: Seq<Server>,
    tallies: Seq<VoteTally>,
    msgs: Seq<Message>,
    outs: Seq<MessageOutcome>,
)
    requires
        servers.len() == msgs.len() + 1,
        tallies.len() == msgs.len() + 1,
        outs.len() == msgs.len(),
        servers[0].state_spec() == ServerState::Follower,
        forall|j: int|
            0 <= j < msgs.len() ==> can_take_message(servers[j], tallies[j], #[trigger] msgs[j])
                && handles_message(servers[j], servers[j + 1], tallies[j], tallies[j + 1], msgs[j], outs[j]),
    ensures
        forall|j: int| 0 <= j <= msgs.len() ==> (#[trigger] servers[j]).state_spec() == ServerState::Follower,
        forall|j: int|
            0 <= j < msgs.len() ==> match #[trigger] msgs[j] {
                Message::Request(req) => outs[j].reply matches Some((to, _)) && to
                    == req.headers_spec().node_id,
                Message::Response(_) => outs[j].reply is None,
            },
    decreases msgs.len(),
{
    if msgs.len() > 0 {
        let k = msgs.len() - 1;
        lemma_followers_are_passive(
            servers.drop_last(),
            tallies.drop_last(),
            msgs.drop_last(),
            outs.drop_last(),
        );
        assert(servers.drop_last()[k] == servers[k]);
        assert(msgs.drop_last().len() == k);
        assert forall|j: int| 0 <= j <= msgs.len() implies (#[trigger] servers[j]).state_spec()
            == ServerState::Follower by {
            if j < msgs.len() {
                assert(servers.drop_last()[j] == servers[j]);
            } else {
                assert(can_take_message(servers[k], tallies[k], msgs[k]));
            }
        }
        assert forall|j: int| 0 <= j < msgs.len() implies match #[trigger] msgs[j] {
            Message::Request(req) => outs[j].reply matches Some((to, _)) && to
                == req.headers_spec().node_id,
            Message::Response(_) => outs[j].reply is None,
        } by {
            if j < k {
                assert(msgs.drop_last()[j] == msgs[j]);
                assert(outs.drop_last()[j] == outs[j]);
            } else {
                assert(can_take_message(servers[j], tallies[j], msgs[j]));
            }
        }
    }
}

/// `new` and `action` are what `old` becomes and does on a client's write of
/// `command`. The leader appends the command to its log as a new entry, in its
/// current term, under the index just after its last entry's (1 for an empty
/// log); it then sends an `AppendEntries` request to each `replicable` peer,
/// in the order of its peers, and answers the client with success and a
/// snapshot of its state machine. Any other server redirects the client to the
/// leader it knows of and is left unchanged.
pub open spec fn handles_client_write(old: Server, new: Server, command: Command, action: ClientRequestAction) -> bool {
    &&& old.state_spec() != ServerState::Leader ==> {
        &&& action == (ClientRequestAction::Redirect { leader: old.current_leader_spec() })
        &&& new == old
    }
    &&& old.state_spec() == ServerState::Leader ==> {
        &&& new.log_spec().drop_last() == old.log_spec()
        &&& new.log_spec().len() == old.log_spec().len() + 1
        &&& new.log_spec().last().index_spec() == last_index_or(old.log_spec(), 0) + 1
        &&& new.log_spec().last().term_spec() == old.current_term_spec()
        &&& new.log_spec().last().command_spec() == command
        &&& new.id_spec() == old.id_spec()
        &&& new.state_spec() == old.state_spec()
        &&& new.current_term_spec() == old.current_term_spec()
        &&& new.voted_for_spec() == old.voted_for_spec()
        &&& new.current_leader_spec() == old.current_leader_spec()
        &&& new.state_machine_spec() == old.state_machine_spec()
        &&& new.commit_index_spec() == old.commit_index_spec()
        &&& new.next_indices_spec() == old.next_indices_spec()
        &&& new.match_indices_spec() == old.match_indices_spec()
        &&& new.peers_spec() == old.peers_spec()
        &&& new.heartbeat_interval_spec() == old.heartbeat_interval_spec()
        &&& new.election_timeout_range_spec() == old.election_timeout_range_spec()
        &&& action matches ClientRequestAction::Replicate { requests, response } && {
            &&& response.success_spec()
            &&& response.snapshot_spec().x_spec() == new.state_machine_spec().x_spec()
            &&& response.snapshot_spec().y_spec() == new.state_machine_spec().y_spec()
            &&& response.snapshot_spec().z_spec() == new.state_machine_spec().z_spec()
            &&& requests@.len() == new.replicable_peers().len()
            &&& forall|i: int| 0 <= i < requests@.len() ==> {
                &&& #[trigger] requests@[i].0 == new.replicable_peers()[i]
                &&& new.is_append_entries_for(requests@[i].0, requests@[i].1)
            }
        }
    }
}

/// What a server does with a client's request.
#[derive(Debug, Clone)]
pub enum ClientRequestAction {
    /// The leader has appended the request's command to its log: it sends each
    /// `AppendEntries` request to the peer named beside it, to replicate the
    /// entry, and answers the client with `response`.
    Replicate { requests: Vec<(NodeId, ServerRequest)>, response: ClientResponse },
    /// The leader answers a client's read with `response`.
    Answer { response: ClientResponse },
    /// Any other server redirects the client to the leader, when it knows one.
    Redirect { leader: Option<NodeId> },
}

/// A Server handles requests from Clients. Within the same Cluster,
/// Only one server can be the Leader at any one time.
///
/// This holds the server's state; every decision the server takes on a timer
/// or a message is a method here that returns what must be sent.
#[derive(Debug)]
pub struct Server {
    id: NodeId,
    state: ServerState,
    state_machine: InMemoryStateMachine,
    /// Each server stores a current term number, which increases
    /// monotonically over time.
    current_term: usize,
    voted_for: Option<NodeId>,
    /// The leader of the current term, when known: where clients are redirected.
    current_leader: Option<NodeId>,
    log: ServerLog,
    commit_index: usize,
    volatile_leader_state: VolatileLeaderState,
    heartbeat_interval: u64,
    election_timeout_range: TimeoutRange,
    peer_ids: Vec<NodeId>,
}

impl Server {
    pub closed spec fn id_spec(&self) -> NodeId {
        self.id
    }

    pub closed spec fn state_spec(&self) -> ServerState {
        self.state
    }

    pub closed spec fn state_machine_spec(&self) -> InMemoryStateMachine {
        self.state_machine
    }

    pub closed spec fn current_term_spec(&self) -> usize {
        self.current_term
    }

    pub closed spec fn voted_for_spec(&self) -> Option<NodeId> {
        self.voted_for
    }

    pub closed spec fn current_leader_spec(&self) -> Option<NodeId> {
        self.current_leader
    }

    pub closed spec fn log_spec(&self) -> Seq<ServerLogEntry> {
        self.log@
    }

    pub closed spec fn commit_index_spec(&self) -> usize {
        self.commit_index
    }

    pub closed spec fn next_indices_spec(&self) -> Map<u128, usize> {
        self.volatile_leader_state.next_indices_spec()
    }

    pub closed spec fn match_indices_spec(&self) -> Map<u128, usize> {
        self.volatile_leader_state.match_indices_spec()
    }

    pub closed spec fn heartbeat_interval_spec(&self) -> u64 {
        self.heartbeat_interval
    }

    pub closed spec fn election_timeout_range_spec(&self) -> TimeoutRange {
        self.election_timeout_range
    }

    pub closed spec fn peers_spec(&self) -> Seq<NodeId> {
        self.peer_ids@
    }

    /// A server tracks finitely many followers.
    pub proof fn lemma_tracks_finitely_many(&self)
        ensures
            self.next_indices_spec().dom().finite(),
            self.match_indices_spec().dom().finite(),
    {
        self.volatile_leader_state.lemma_tracks_finitely_many();
    }

    /// The server is well formed: its peers are distinct and exclude itself,
    /// and its election timeout range is not empty.
    pub open spec fn wf(&self) -> bool {
        &&& self.peers_spec().no_duplicates()
        &&& !self.peers_spec().contains(self.id_spec())
        &&& self.election_timeout_range_spec().min_spec() < self.election_timeout_range_spec().max_spec()
    }

    /// Everything but the term, the vote, the known leader and the state is as
    /// in `other`.
    pub open spec fn same_besides_election(&self, other: &Server) -> bool {
        &&& self.same_core(other)
        &&& self.next_indices_spec() == other.next_indices_spec()
        &&& self.match_indices_spec() == other.match_indices_spec()
    }

    /// The leader tracks a next index for each of its first `i` peers.
    pub open spec fn tracks_peers_before(&self, i: int) -> bool {
        forall|k: int| 0 <= k < i ==> self.next_indices_spec().contains_key(#[trigger] self.peers_spec()[k].bits())
    }

    /// The identifier, state machine, log, commit index, timings and peers are
    /// as in `other`.
    pub open spec fn same_core(&self, other: &Server) -> bool {
        &&& self.id_spec() == other.id_spec()
        &&& self.state_machine_spec() == other.state_machine_spec()
        &&& self.log_spec() == other.log_spec()
        &&& self.commit_index_spec() == other.commit_index_spec()
        &&& self.heartbeat_interval_spec() == other.heartbeat_interval_spec()
        &&& self.election_timeout_range_spec() == other.election_timeout_range_spec()
        &&& self.peers_spec() == other.peers_spec()
    }

    /// `tally` counts each voter once, and only the server's peers.
    pub open spec fn counts_for(&self, tally: VoteTally) -> bool {
        &&& tally.voters_spec().no_duplicates()
        &&& forall|v: NodeId| tally.voters_spec().contains(v) ==> self.peers_spec().contains(v)
    }

    /// Everything but the commit index and the leader's per-follower indices
    /// is as in `other`.
    pub open spec fn same_besides_leader_state(&self, other: &Server) -> bool {
        &&& self.id_spec() == other.id_spec()
        &&& self.state_spec() == other.state_spec()
        &&& self.current_term_spec() == other.current_term_spec()
        &&& self.voted_for_spec() == other.voted_for_spec()
        &&& self.current_leader_spec() == other.current_leader_spec()
        &&& self.state_machine_spec() == other.state_machine_spec()
        &&& self.log_spec() == other.log_spec()
        &&& self.heartbeat_interval_spec() == other.heartbeat_interval_spec()
        &&& self.election_timeout_range_spec() == other.election_timeout_range_spec()
        &&& self.peers_spec() == other.peers_spec()
    }

    /// The leader tracks a next index for `peer` that lies within its log, so
    /// it can send `peer` the entries from there on.
    pub open spec fn replicable(&self, peer: NodeId) -> bool {
        &&& self.next_indices_spec().contains_key(peer.bits())
        &&& self.next_indices_spec()[peer.bits()] <= self.log_spec().len() + 1
    }

    /// The members of `ids` that are `replicable`, in their order.
    pub open spec fn replicable_among(&self, ids: Seq<NodeId>) -> Seq<NodeId> {
        ids.filter(|p: NodeId| self.replicable(p))
    }

    /// The peers that are `replicable`, in the order of the server's peers.
    pub open spec fn replicable_peers(&self) -> Seq<NodeId> {
        self.replicable_among(self.peers_spec())
    }

    /// `r` is the `AppendEntries` request this server sends to `peer`: it
    /// carries the entries of the log from the peer's next index on (log
    /// indices count from 1, so from position `next - 1`), the index
    /// and term of the entry recorded just before that index (both 0 when there
    /// is none), and the server's commit index, under its identifier and term.
    pub open spec fn is_append_entries_for(&self, peer: NodeId, r: ServerRequest) -> bool {
        let next = self.next_indices_spec()[peer.bits()];
        &&& r.headers_spec() == (ServerRequestHeaders {
            node_id: self.id_spec(),
            term: self.current_term_spec(),
        })
        &&& r.body_spec() matches ServerRequestBody::AppendEntries {
            leader_id,
            prev_log_index,
            prev_log_term,
            entries,
            leader_commit,
        } && {
            &&& leader_id == self.id_spec()
            &&& entries@ == self.log_spec().subrange(first_position(next), self.log_spec().len() as int)
            &&& leader_commit == self.commit_index_spec()
            &&& (prev_log_index, prev_log_term) == prev_log_position(self.log_spec(), next)
        }
    }

    /// A server `id` among `peer_ids` (itself excluded, each peer once), as a
    /// follower in term 0 that has voted for no one, with an empty log, a
    /// heartbeat interval of 374 ms and an election timeout of 750 to 1000 ms.
    pub fn new(id: NodeId, peer_ids: Vec<NodeId>) -> (s: Self)
        ensures
            s.wf(),
            s.id_spec() == id,
            s.state_spec() == ServerState::Follower,
            s.current_term_spec() == 0,
            s.voted_for_spec() is None,
            s.current_leader_spec() is None,
            s.log_spec().len() == 0,
            s.commit_index_spec() == 0,
            s.next_indices_spec().dom().len() == 0,
            s.match_indices_spec().dom().len() == 0,
            s.heartbeat_interval_spec() == 374,
            s.election_timeout_range_spec().min_spec() == 750,
            s.election_timeout_range_spec().max_spec() == 1000,
            s.peers_spec().to_set() == peer_ids@.to_set().remove(id),
    {
        let mut peers: Vec<NodeId> = Vec::new();
        let mut i: usize = 0;
        while i < peer_ids.len()
            invariant
                i <= peer_ids@.len(),
                peers@.no_duplicates(),
                peers@.to_set() == peer_ids@.subrange(0, i as int).to_set().remove(id),
            decreases peer_ids@.len() - i,
        {
            let p = peer_ids[i];
            let mut seen = false;
            let mut j: usize = 0;
            while j < peers.len()
                invariant
                    j <= peers@.len(),
                    seen <==> exists|k: int| 0 <= k < j && peers@[k] == p,
                decreases peers@.len() - j,
            {
                if peers[j] == p {
                    seen = true;
                }
                j = j + 1;
            }
            let ghost before = peers@;
            if !seen && p != id {
                peers.push(p);
                proof {
                    before.lemma_push_to_set_commute(p);
                }
            }
            proof {
                let pre = peer_ids@.subrange(0, i as int);
                assert(peer_ids@.subrange(0, i + 1) =~= pre.push(p));
                pre.lemma_push_to_set_commute(p);
                assert(peers@.to_set() =~= pre.push(p).to_set().remove(id));
            }
            i = i + 1;
        }
        assert(peer_ids@.subrange(0, peer_ids@.len() as int) =~= peer_ids@);
        assert(!peers@.contains(id)) by {
            if peers@.contains(id) {
                assert(peers@.to_set().contains(id));
            }
        }
        let s = Self {
            id,
            state: ServerState::Follower,
            state_machine: InMemoryStateMachine::new(),
            current_term: 0,
            voted_for: None,
            current_leader: None,
            log: ServerLog::new(),
            commit_index: 0,
            volatile_leader_state: VolatileLeaderState::new(Vec::new(), 0),
            heartbeat_interval: 374,
            election_timeout_range: TimeoutRange::new(750, 1000),
            peer_ids: peers,
        };
        assert(id_bits(Seq::<NodeId>::empty()) =~= Set::<u128>::empty());
        s
    }

    pub fn heartbeat_interval_ms(self, interval_ms: u64) -> (s: Self)
        ensures
            s.heartbeat_interval_spec() == interval_ms,
            s.id_spec() == self.id_spec(),
            s.state_spec() == self.state_spec(),
            s.current_term_spec() == self.current_term_spec(),
            s.voted_for_spec() == self.voted_for_spec(),
            s.current_leader_spec() == self.current_leader_spec(),
            s.state_machine_spec() == self.state_machine_spec(),
            s.log_spec() == self.log_spec(),
            s.commit_index_spec() == self.commit_index_spec(),
            s.next_indices_spec() == self.next_indices_spec(),
            s.match_indices_spec() == self.match_indices_spec(),
            s.election_timeout_range_spec() == self.election_timeout_range_spec(),
            s.peers_spec() == self.peers_spec(),
    {
        let mut s = self;
        s.heartbeat_interval = interval_ms;
        s
    }

    /// Sets the range from which election timeouts are drawn; `min < max`.
    pub fn election_timeout_range(self, min: u64, max: u64) -> (s: Self)
        requires
            min < max,
        ensures
            s.election_timeout_range_spec().min_spec() == min,
            s.election_timeout_range_spec().max_spec() == max,
            s.id_spec() == self.id_spec(),
            s.state_spec() == self.state_spec(),
            s.current_term_spec() == self.current_term_spec(),
            s.voted_for_spec() == self.voted_for_spec(),
            s.current_leader_spec() == self.current_leader_spec(),
            s.state_machine_spec() == self.state_machine_spec(),
            s.log_spec() == self.log_spec(),
            s.commit_index_spec() == self.commit_index_spec(),
            s.next_indices_spec() == self.next_indices_spec(),
            s.match_indices_spec() == self.match_indices_spec(),
            s.heartbeat_interval_spec() == self.heartbeat_interval_spec(),
            s.peers_spec() == self.peers_spec(),
    {
        let mut s = self;
        s.election_timeout_range = TimeoutRange::new(min, max);
        s
    }

    /// An election timeout, in milliseconds, drawn from the server's range.
    pub fn generate_random_timeout(&self) -> (ms: u64)
        requires
            self.election_timeout_range_spec().min_spec() <= self.election_timeout_range_spec().max_spec(),
        ensures
            self.election_timeout_range_spec().min_spec() <= ms <= self.election_timeout_range_spec().max_spec(),
    {
        self.election_timeout_range.random()
    }

    pub fn id(&self) -> (r: NodeId)
        ensures
            r == self.id_spec(),
    {
        self.id
    }

    pub fn state(&self) -> (r: ServerState)
        ensures
            r == self.state_spec(),
    {
        self.state
    }

    pub fn heartbeat_interval(&self) -> (r: u64)
        ensures
            r == self.heartbeat_interval_spec(),
    {
        self.heartbeat_interval
    }

    pub fn current_term(&self) -> (r: usize)
        ensures
            r == self.current_term_spec(),
    {
        self.current_term
    }

    /// Replaces the current term with what `setter` makes of it, which is never
    /// less: the current term increases monotonically.
    pub fn set_current_term(&mut self, setter: impl FnOnce(usize) -> usize)
        requires
            call_requires(setter, (old(self).current_term_spec(),)),
            forall|t: usize|
                call_ensures(setter, (old(self).current_term_spec(),), t) ==> t >= old(self).current_term_spec(),
        ensures
            call_ensures(setter, (old(self).current_term_spec(),), final(self).current_term_spec()),
            final(self).same_besides_election(old(self)),
            final(self).state_spec() == old(self).state_spec(),
            final(self).voted_for_spec() == old(self).voted_for_spec(),
            final(self).current_leader_spec() == old(self).current_leader_spec(),
    {
        self.current_term = setter(self.current_term);
    }

    pub fn voted_for(&self) -> (r: Option<NodeId>)
        ensures
            r == self.voted_for_spec(),
    {
        self.voted_for
    }

    pub fn set_voted_for(&mut self, candidate_id: Option<NodeId>)
        ensures
            final(self).voted_for_spec() == candidate_id,
            final(self).same_besides_election(old(self)),
            final(self).state_spec() == old(self).state_spec(),
            final(self).current_term_spec() == old(self).current_term_spec(),
            final(self).current_leader_spec() == old(self).current_leader_spec(),
    {
        self.voted_for = candidate_id;
    }

    pub fn commit_index(&self) -> (r: usize)
        ensures
            r == self.commit_index_spec(),
    {
        self.commit_index
    }

    /// The server's log.
    pub fn log(&self) -> (r: &ServerLog)
        ensures
            r@ == self.log_spec(),
    {
        &self.log
    }

    /// The server's replicated state.
    pub fn state_machine(&self) -> (r: InMemoryStateMachine)
        ensures
            r == self.state_machine_spec(),
    {
        self.state_machine
    }

    /// The identifiers of the server's peers.
    pub fn peer_ids(&self) -> (r: Vec<NodeId>)
        ensures
            r@ == self.peers_spec(),
    {
        self.peer_ids.clone()
    }

    /// The next index recorded for `peer`, if any.
    pub fn get_next_index_for_peer(&self, peer: &NodeId) -> (r: Option<usize>)
        ensures
            r == (if self.next_indices_spec().contains_key(peer.bits()) {
                Some(self.next_indices_spec()[peer.bits()])
            } else {
                None::<usize>
            }),
    {
        if self.volatile_leader_state.contains_next_index(peer) {
            Some(self.volatile_leader_state.get_next_index(peer))
        } else {
            None
        }
    }

    /// If a candidate or leader discovers that its term is out of date, it
    /// immediately reverts to follower state. Reports whether the state changed.
    fn downgrade_to_follower(&mut self) -> (changed: bool)
        ensures
            changed == (old(self).state_spec() != ServerState::Follower),
            final(self).state_spec() == ServerState::Follower,
            final(self).same_besides_election(old(self)),
            final(self).current_term_spec() == old(self).current_term_spec(),
            final(self).voted_for_spec() == old(self).voted_for_spec(),
            final(self).current_leader_spec() == old(self).current_leader_spec(),
    {
        if self.state != ServerState::Follower {
            self.state = ServerState::Follower;
            return true;
        }
        false
    }

    /// To begin an election, a follower increments its current term and
    /// transitions to candidate state. Reports whether the state changed.
    fn upgrade_to_candidate(&mut self) -> (changed: bool)
        ensures
            changed == (old(self).state_spec() != ServerState::Candidate),
            final(self).state_spec() == ServerState::Candidate,
            final(self).same_besides_election(old(self)),
            final(self).current_term_spec() == old(self).current_term_spec(),
            final(self).voted_for_spec() == old(self).voted_for_spec(),
            final(self).current_leader_spec() == old(self).current_leader_spec(),
    {
        if self.state != ServerState::Candidate {
            self.state = ServerState::Candidate;
            return true;
        }
        false
    }

    /// A candidate wins an election if it receives votes from a majority
    /// of the servers in the full cluster for the same term. Once a
    /// candidate wins an election, it becomes leader. Reports whether the
    /// state changed.
    fn upgrade_to_leader(&mut self) -> (changed: bool)
        ensures
            changed == (old(self).state_spec() != ServerState::Leader),
            final(self).state_spec() == ServerState::Leader,
            final(self).same_besides_election(old(self)),
            final(self).current_term_spec() == old(self).current_term_spec(),
            final(self).voted_for_spec() == old(self).voted_for_spec(),
            final(self).current_leader_spec() == old(self).current_leader_spec(),
    {
        if self.state != ServerState::Leader {
            self.state = ServerState::Leader;
            return true;
        }
        false
    }

    /// Followers are passive: when no message arrives before the election
    /// timeout, a follower becomes a candidate and begins an election. A
    /// candidate whose election times out, without winning or losing, begins a
    /// new one. A leader has no election timeout and is left unchanged.
    pub fn on_election_timeout(&mut self) -> (tally: Option<VoteTally>)
        requires
            old(self).state_spec() != ServerState::Leader ==> old(self).current_term_spec() < usize::MAX,
        ensures
            old(self).state_spec() == ServerState::Leader ==> tally is None && *final(self) == *old(self),
            old(self).state_spec() != ServerState::Leader ==> (tally matches Some(t) && begins_election(
                *old(self),
                *final(self),
                t,
            )),
    {
        if self.state == ServerState::Leader {
            return None;
        }
        self.upgrade_to_candidate();
        Some(self.begin_election())
    }

    /// To begin an election, a candidate increments its current term and votes
    /// for itself; it then requests the vote of each of its peers. A server
    /// without peers wins at once: see `begins_election`.
    pub fn begin_election(&mut self) -> (tally: VoteTally)
        requires
            old(self).state_spec() == ServerState::Candidate,
            old(self).current_term_spec() < usize::MAX,
        ensures
            begins_election(*old(self), *final(self), tally),
    {
        self.current_term = self.current_term + 1;
        self.voted_for = Some(self.id);
        self.current_leader = None;
        if self.peer_ids.len() == 0 {
            // Its own vote is a majority of a cluster of one.
            self.upgrade_to_leader();
            self.reinitialise_volatile_state();
        }
        VoteTally::new(self.current_term)
    }

    /// The `RequestVote` request a candidate sends to each of its peers.
    pub fn request_vote_request(&self) -> (req: ServerRequest)
        ensures
            req.headers_spec() == (ServerRequestHeaders {
                node_id: self.id_spec(),
                term: self.current_term_spec(),
            }),
            req.body_spec() == (ServerRequestBody::RequestVote { candidate_id: self.id_spec() }),
    {
        ServerRequest::new(
            ServerRequestHeaders { node_id: self.id, term: self.current_term },
            ServerRequestBody::RequestVote { candidate_id: self.id },
        )
    }

    /// Answers a request from another server, as `answers_request` says.
    pub fn handle_request(&mut self, req: &ServerRequest) -> (res: ServerResponse)
        ensures
            answers_request(*old(self), *final(self), *req, res),
    {
        let request_term = req.term();
        let current_term = self.current_term;
        let body = match req.body() {
            ServerRequestBody::AppendEntries { leader_id, .. } => {
                let success = if self.state == ServerState::Leader {
                    request_term > current_term
                } else {
                    request_term >= current_term
                };
                if success {
                    self.current_term = request_term;
                    self.voted_for = Some(*leader_id);
                    self.current_leader = Some(*leader_id);
                    self.downgrade_to_follower();
                }
                ServerResponseBody::AppendEntries { success }
            },
            ServerRequestBody::RequestVote { candidate_id } => {
                let vote_granted = request_term > current_term || (request_term == current_term
                    && match self.voted_for {
                    None => true,
                    Some(id) => id == *candidate_id,
                });
                if vote_granted {
                    if request_term > current_term {
                        self.current_leader = None;
                    }
                    self.current_term = request_term;
                    self.voted_for = Some(*candidate_id);
                    self.downgrade_to_follower();
                }
                ServerResponseBody::RequestVote { vote_granted }
            },
        };
        ServerResponse::new(ServerResponseHeaders { node_id: self.id, term: self.current_term }, body)
    }

    /// Takes in a response from another server, as `takes_response` says.
    /// Reports whether the server's state changed.
    pub fn handle_response(&mut self, tally: &mut VoteTally, res: &ServerResponse) -> (changed: bool)
        requires
            can_take_response(*old(self), *old(tally), *res),
        ensures
            changed == (final(self).state_spec() != old(self).state_spec()),
            takes_response(*old(self), *final(self), *old(tally), *final(tally), *res),
            old(self).counts_for(*old(tally)) ==> final(self).counts_for(*final(tally)),
    {
        let response_term = res.term();
        if response_term > self.current_term {
            // A response from a newer term: this server's term is out of date.
            self.current_term = response_term;
            self.current_leader = None;
            return self.downgrade_to_follower();
        }
        match self.state {
            ServerState::Follower => false,
            ServerState::Candidate => {
                match res.body() {
                    ServerResponseBody::RequestVote { vote_granted } => {
                        let sender = res.sender_id();
                        if *vote_granted && response_term == self.current_term && tally.term
                            == self.current_term && contains_id(&self.peer_ids, &sender)
                            && !contains_id(&tally.voters, &sender) {
                            tally.voters.push(sender);
                            // A candidate wins an election if it receives votes from a
                            // majority of the servers in the full cluster, its own
                            // included: (votes + 1) * 2 > peers + 1.
                            let n = self.peer_ids.len();
                            if tally.voters.len() >= n - n / 2 {
                                self.upgrade_to_leader();
                                self.reinitialise_volatile_state();
                                return true;
                            }
                        }
                        false
                    },
                    ServerResponseBody::AppendEntries { .. } => false,
                }
            },
            ServerState::Leader => {
                match res.body() {
                    ServerResponseBody::AppendEntries { success } => {
                        let sender_id = res.sender_id();
                        if *success {
                            // Once `AppendEntries` succeeds, the follower's log is
                            // consistent with the leader's.
                            self.commit_index = match self.volatile_leader_state.highest_committable_index() {
                                Some(i) => i,
                                None => 0,
                            };
                            let next = match self.log.last() {
                                Some(entry) => entry.index() + 1,
                                None => 1,
                            };
                            self.volatile_leader_state.set_next_index(sender_id, next);
                        } else {
                            // After a rejection, the leader decrements nextIndex and retries.
                            self.volatile_leader_state.decrement_next_index(sender_id);
                        }
                        false
                    },
                    ServerResponseBody::RequestVote { .. } => false,
                }
            },
        }
    }

    /// Handles a message from another server, as `handles_message` says. A
    /// follower stays a follower: see `lemma_followers_are_passive`.
    pub fn handle_message(&mut self, tally: &mut VoteTally, msg: &Message) -> (out: MessageOutcome)
        requires
            can_take_message(*old(self), *old(tally), *msg),
        ensures
            handles_message(*old(self), *final(self), *old(tally), *final(tally), *msg, out),
            old(self).state_spec() == ServerState::Follower ==> final(self).state_spec()
                == ServerState::Follower,
    {
        let reply = match msg {
            Message::Request(req) => {
                let res = self.handle_request(req);
                Some((req.sender_id(), res))
            },
            Message::Response(res) => {
                self.handle_response(tally, res);
                None
            },
        };
        MessageOutcome { reply, restart_election_timer: self.state == ServerState::Follower }
    }

    /// When a leader first comes to power, it initializes the next index of
    /// every peer to the index just after the last one in its log (1 for an
    /// empty log), and every match index to 0.
    pub fn reinitialise_volatile_state(&mut self)
        requires
            old(self).peers_spec().len() > 0 ==> last_index_or(old(self).log_spec(), 0) < usize::MAX,
        ensures
            final(self).same_besides_leader_state(old(self)),
            final(self).commit_index_spec() == old(self).commit_index_spec(),
            final(self).next_indices_spec().dom() == id_bits(old(self).peers_spec()),
            final(self).match_indices_spec().dom() == id_bits(old(self).peers_spec()),
            forall|k: u128| #[trigger] final(self).next_indices_spec().contains_key(k)
                ==> final(self).next_indices_spec()[k] == last_index_or(old(self).log_spec(), 0) + 1,
            forall|k: u128| #[trigger] final(self).match_indices_spec().contains_key(k)
                ==> final(self).match_indices_spec()[k] == 0,
    {
        let last_log_index = match self.log.last() {
            Some(entry) => entry.index(),
            None => 0,
        };
        self.volatile_leader_state = VolatileLeaderState::new(self.peer_ids.clone(), last_log_index);
    }

    /// The `AppendEntries` request a leader sends to `peer`: the entries of its
    /// log from the peer's next index on, the index and term of the entry
    /// recorded just before that index (both 0 when there is none), and the
    /// leader's commit index. `None` when the leader tracks no next index for
    /// the peer.
    pub fn append_entries_request_for_peer(&self, peer: &NodeId) -> (req: Option<ServerRequest>)
        requires
            self.next_indices_spec().contains_key(peer.bits()) ==> self.next_indices_spec()[peer.bits()]
                <= self.log_spec().len() + 1,
        ensures
            self.next_indices_spec().contains_key(peer.bits()) <==> req is Some,
            req matches Some(r) ==> self.is_append_entries_for(*peer, r),
    {
        let peer_next_index = match self.get_next_index_for_peer(peer) {
            Some(index) => index,
            None => return None,
        };
        let (prev_log_index, prev_log_term) = if peer_next_index > 0 {
            match self.log.find_by_index(peer_next_index - 1) {
                Some(entry) => {
                    proof {
                        let log = self.log_spec();
                        let w = choose|i: int|
                            0 <= i < log.len() && log[i] == entry && entry.index_spec() == peer_next_index - 1
                                && forall|j: int| 0 <= j < i ==> #[trigger] log[j].index_spec() != peer_next_index - 1;
                        assert(is_first_with_index(log, w, peer_next_index - 1));
                        let c = choose|i: int| #[trigger] is_first_with_index(log, i, peer_next_index - 1);
                        assert(c == w) by {
                            if c < w {
                                assert(log[c].index_spec() != peer_next_index - 1);
                            } else if w < c {
                                assert(log[w].index_spec() != peer_next_index - 1);
                            }
                        }
                    }
                    (entry.index(), entry.term())
                },
                None => (0, 0),
            }
        } else {
            (0, 0)
        };
        let first = if peer_next_index > 0 {
            peer_next_index - 1
        } else {
            0
        };
        let entries = self.log.entries_from(first);
        Some(
            ServerRequest::new(
                ServerRequestHeaders { node_id: self.id, term: self.current_term },
                ServerRequestBody::AppendEntries {
                    leader_id: self.id,
                    prev_log_index,
                    prev_log_term,
                    entries,
                    leader_commit: self.commit_index,
                },
            ),
        )
    }

    /// The `AppendEntries` requests a leader sends to each of its peers, in the
    /// order of its peers, each beside the peer it goes to; `None` when it
    /// tracks no next index for one of them. The peers are taken in order, and
    /// each one's next index must lie within the log once those before it were
    /// found.
    pub fn append_entries_requests(&self) -> (reqs: Option<Vec<(NodeId, ServerRequest)>>)
        requires
            forall|i: int|
                0 <= i < self.peers_spec().len() && #[trigger] self.tracks_peers_before(i)
                    && self.next_indices_spec().contains_key(self.peers_spec()[i].bits())
                    ==> self.next_indices_spec()[self.peers_spec()[i].bits()] <= self.log_spec().len() + 1,
        ensures
            reqs is None <==> exists|i: int|
                0 <= i < self.peers_spec().len() && !self.next_indices_spec().contains_key(
                    #[trigger] self.peers_spec()[i].bits(),
                ),
            reqs matches Some(v) ==> {
                &&& v@.len() == self.peers_spec().len()
                &&& forall|i: int| 0 <= i < v@.len() ==> {
                    &&& #[trigger] v@[i].0 == self.peers_spec()[i]
                    &&& self.is_append_entries_for(v@[i].0, v@[i].1)
                }
            },
    {
        let mut reqs: Vec<(NodeId, ServerRequest)> = Vec::new();
        let mut i: usize = 0;
        while i < self.peer_ids.len()
            invariant
                i <= self.peers_spec().len(),
                reqs@.len() == i,
                self.tracks_peers_before(i as int),
                forall|j: int|
                    0 <= j < self.peers_spec().len() && #[trigger] self.tracks_peers_before(j)
                        && self.next_indices_spec().contains_key(self.peers_spec()[j].bits())
                        ==> self.next_indices_spec()[self.peers_spec()[j].bits()] <= self.log_spec().len() + 1,
                forall|k: int| 0 <= k < i ==> {
                    &&& #[trigger] reqs@[k].0 == self.peers_spec()[k]
                    &&& self.is_append_entries_for(reqs@[k].0, reqs@[k].1)
                },
            decreases self.peers_spec().len() - i,
        {
            let peer = self.peer_ids[i];
            assert(self.tracks_peers_before(i as int));
            assert(peer == self.peers_spec()[i as int]);
            match self.append_entries_request_for_peer(&peer) {
                Some(r) => reqs.push((peer, r)),
                None => return None,
            }
            assert(self.tracks_peers_before(i + 1)) by {
                assert forall|k: int| 0 <= k < i + 1 implies self.next_indices_spec().contains_key(
                    #[trigger] self.peers_spec()[k].bits(),
                ) by {
                    if k < i {
                        assert(self.tracks_peers_before(i as int));
                    }
                }
            }
            i = i + 1;
        }
        Some(reqs)
    }

    /// The `AppendEntries` requests that replicate a leader's log to the peers
    /// whose next index lies within it, in the order of its peers, each beside
    /// the peer it goes to.
    fn requests_for_replicable_peers(&self) -> (reqs: Vec<(NodeId, ServerRequest)>)
        ensures
            reqs@.len() == self.replicable_peers().len(),
            forall|i: int| 0 <= i < reqs@.len() ==> {
                &&& #[trigger] reqs@[i].0 == self.replicable_peers()[i]
                &&& self.is_append_entries_for(reqs@[i].0, reqs@[i].1)
            },
    {
        let mut reqs: Vec<(NodeId, ServerRequest)> = Vec::new();
        let mut i: usize = 0;
        while i < self.peer_ids.len()
            invariant
                i <= self.peers_spec().len(),
                reqs@.len() == self.replicable_among(self.peers_spec().subrange(0, i as int)).len(),
                forall|k: int| 0 <= k < reqs@.len() ==> {
                    &&& #[trigger] reqs@[k].0 == self.replicable_among(
                        self.peers_spec().subrange(0, i as int),
                    )[k]
                    &&& self.is_append_entries_for(reqs@[k].0, reqs@[k].1)
                },
            decreases self.peers_spec().len() - i,
        {
            let peer = self.peer_ids[i];
            let ghost before = reqs@;
            let ghost pre = self.peers_spec().subrange(0, i as int);
            let within = match self.get_next_index_for_peer(&peer) {
                Some(next) => next == 0 || next - 1 <= self.log.len(),
                None => false,
            };
            if within {
                match self.append_entries_request_for_peer(&peer) {
                    Some(r) => reqs.push((peer, r)),
                    None => {},
                }
            }
            proof {
                assert(self.peers_spec().subrange(0, i + 1) =~= pre.push(peer));
                assert(pre.push(peer).drop_last() =~= pre);
                reveal_with_fuel(Seq::filter, 1);
                assert(within == self.replicable(peer));
            }
            i = i + 1;
        }
        assert(self.peers_spec().subrange(0, self.peers_spec().len() as int) =~= self.peers_spec());
        reqs
    }

    /// The leader of the current term, when the server knows it.
    pub fn current_leader(&self) -> (r: Option<NodeId>)
        ensures
            r == self.current_leader_spec(),
    {
        self.current_leader
    }

    /// The leader answers a client's read with success and a snapshot of its
    /// state machine. A client that contacts any other server is redirected to
    /// the leader it knows of.
    pub fn handle_client_read(&self) -> (action: ClientRequestAction)
        ensures
            self.state_spec() != ServerState::Leader ==> action == (ClientRequestAction::Redirect {
                leader: self.current_leader_spec(),
            }),
            self.state_spec() == ServerState::Leader ==> (action matches ClientRequestAction::Answer {
                response,
            } && {
                &&& response.success_spec()
                &&& response.snapshot_spec().x_spec() == self.state_machine_spec().x_spec()
                &&& response.snapshot_spec().y_spec() == self.state_machine_spec().y_spec()
                &&& response.snapshot_spec().z_spec() == self.state_machine_spec().z_spec()
            }),
    {
        if self.state != ServerState::Leader {
            return ClientRequestAction::Redirect { leader: self.current_leader };
        }
        ClientRequestAction::Answer { response: ClientResponse::new(true, self.state_machine.get_snapshot()) }
    }

    /// Once a leader has been elected, it services client requests. The leader
    /// appends the command to its log as a new entry, in its current term, under
    /// the index just after its last entry's (1 for an empty log); it then sends
    /// `AppendEntries` requests to its peers to replicate the entry, and answers
    /// the client with success and a snapshot of its state machine. A client
    /// that contacts any other server is redirected to the leader it knows of,
    /// and that server is left unchanged: see `handles_client_write`.
    pub fn handle_client_request(&mut self, command: Command) -> (action: ClientRequestAction)
        requires
            old(self).state_spec() == ServerState::Leader ==> last_index_or(old(self).log_spec(), 0)
                < usize::MAX,
        ensures
            handles_client_write(*old(self), *final(self), command, action),
    {
        if self.state != ServerState::Leader {
            return ClientRequestAction::Redirect { leader: self.current_leader };
        }
        let index = match self.log.last() {
            Some(entry) => entry.index() + 1,
            None => 1,
        };
        self.log.append_cmd(index, self.current_term, command);
        let requests = self.requests_for_replicable_peers();
        let response = ClientResponse::new(true, self.state_machine.get_snapshot());
        ClientRequestAction::Replicate { requests, response }
    }
}

/// A server that is not the leader accepts an `AppendEntries` request unless
/// the request's term is behind its own: it acknowledges the leader of its own
/// term as well as one of a newer term. A leader accepts only a request of a
/// newer term. On acceptance the server is a follower of the request's term
/// that records the sender as its leader; on rejection its state and term stay.
pub proof fn lemma_append_entries_accepted_unless_stale(
    old: Server,
    new: Server,
    req: ServerRequest,
    res: ServerResponse,
)
    requires
        answers_request(old, new, req, res),
        req.body_spec() is AppendEntries,
    ensures
        old.state_spec() != ServerState::Leader ==> res.body_spec() == (ServerResponseBody::AppendEntries {
            success: req.headers_spec().term >= old.current_term_spec(),
        }),
        old.state_spec() == ServerState::Leader ==> res.body_spec() == (ServerResponseBody::AppendEntries {
            success: req.headers_spec().term > old.current_term_spec(),
        }),
        res.body_spec() == (ServerResponseBody::AppendEntries { success: true }) ==> {
            &&& new.state_spec() == ServerState::Follower
            &&& new.current_term_spec() == req.headers_spec().term
            &&& req.body_spec() matches ServerRequestBody::AppendEntries { leader_id, .. }
                && new.current_leader_spec() == Some(leader_id)
        },
        res.body_spec() == (ServerResponseBody::AppendEntries { success: false }) ==> {
            &&& new.state_spec() == old.state_spec()
            &&& new.current_term_spec() == old.current_term_spec()
        },
{
}

/// A vote is granted exactly when the request opens a newer term, or is of the
/// server's own term and the server has voted for no one but that candidate in
/// it. A granted vote makes the server a follower of the request's term that
/// records the candidate, and the answer carries that term; a refused one
/// leaves its term, vote and state as they were.
pub proof fn lemma_vote_granted_exactly_when_first_in_term(
    old: Server,
    new: Server,
    req: ServerRequest,
    res: ServerResponse,
)
    requires
        answers_request(old, new, req, res),
        req.body_spec() is RequestVote,
    ensures
        req.body_spec() matches ServerRequestBody::RequestVote { candidate_id } && {
            let granted = req.headers_spec().term > old.current_term_spec() || (req.headers_spec().term
                == old.current_term_spec() && (old.voted_for_spec() is None || old.voted_for_spec()
                == Some(candidate_id)));
            &&& res.body_spec() == (ServerResponseBody::RequestVote { vote_granted: granted })
            &&& granted ==> {
                &&& new.state_spec() == ServerState::Follower
                &&& new.current_term_spec() == req.headers_spec().term
                &&& new.voted_for_spec() == Some(candidate_id)
                &&& res.headers_spec().term == req.headers_spec().term
            }
            &&& !granted ==> {
                &&& new.state_spec() == old.state_spec()
                &&& new.current_term_spec() == old.current_term_spec()
                &&& new.voted_for_spec() == old.voted_for_spec()
            }
        },
{
}

/// An `AppendEntries` request names, as `prev_log_index` and `prev_log_term`,
/// the first log entry recorded under the index just before the peer's next
/// index: that entry's index and the term recorded in it, whatever the
/// leader's current term.
pub proof fn lemma_append_entries_names_the_previous_entry(s: Server, peer: NodeId, r: ServerRequest, i: int)
    requires
        s.is_append_entries_for(peer, r),
        0 <= i < s.log_spec().len(),
        s.log_spec()[i].index_spec() + 1 == s.next_indices_spec()[peer.bits()],
        forall|j: int|
            0 <= j < i ==> #[trigger] s.log_spec()[j].index_spec() != s.log_spec()[i].index_spec(),
    ensures
        r.body_spec() matches ServerRequestBody::AppendEntries { prev_log_index, prev_log_term, .. }
            && prev_log_index == s.log_spec()[i].index_spec() && prev_log_term
            == s.log_spec()[i].term_spec(),
{
    let log = s.log_spec();
    let next = s.next_indices_spec()[peer.bits()];
    assert(is_first_with_index(log, i, next - 1));
    let c = choose|c: int| #[trigger] is_first_with_index(log, c, next - 1);
    assert(c == i) by {
        if c < i {
            assert(log[c].index_spec() != log[i].index_spec());
        } else if i < c {
            assert(log[i].index_spec() != next - 1);
        }
    }
}

/// When no log entry is recorded under the index just before the peer's next
/// index (or that index is 0), `prev_log_index` and `prev_log_term` are both 0.
pub proof fn lemma_append_entries_without_previous_entry(s: Server, peer: NodeId, r: ServerRequest)
    requires
        s.is_append_entries_for(peer, r),
        forall|j: int|
            0 <= j < s.log_spec().len() ==> #[trigger] s.log_spec()[j].index_spec() + 1
                != s.next_indices_spec()[peer.bits()],
    ensures
        r.body_spec() matches ServerRequestBody::AppendEntries { prev_log_index, prev_log_term, .. }
            && prev_log_index == 0 && prev_log_term == 0,
{
    let log = s.log_spec();
    let next = s.next_indices_spec()[peer.bits()];
    if next > 0 && exists|i: int| #[trigger] is_first_with_index(log, i, next - 1) {
        let i = choose|i: int| #[trigger] is_first_with_index(log, i, next - 1);
        assert(log[i].index_spec() + 1 != next);
    }
}

/// A candidate wins as soon as its own vote and the votes it counted form a
/// majority of the full cluster of itself and its peers, whatever the
/// cluster's size, and not before. A response that does not count as a vote
/// changes neither its count nor its state.
pub proof fn lemma_candidate_wins_on_a_majority(
    old: Server,
    new: Server,
    old_tally: VoteTally,
    new_tally: VoteTally,
    res: ServerResponse,
)
    requires
        takes_response(old, new, old_tally, new_tally, res),
        old.state_spec() == ServerState::Candidate,
        res.headers_spec().term <= old.current_term_spec(),
    ensures
        new_tally.votes_spec() == (if counts_as_vote(old, old_tally, res) {
            old_tally.votes_spec() + 1
        } else {
            old_tally.votes_spec()
        }),
        new.state_spec() == (if counts_as_vote(old, old_tally, res) && (old_tally.votes_spec() + 2) * 2
            > old.peers_spec().len() + 1 {
            ServerState::Leader
        } else {
            ServerState::Candidate
        }),
{
}

/// A server begins an election as a candidate, unless it has no peers: its own
/// vote is then a majority of the cluster and it is leader at once.
pub proof fn lemma_lone_server_wins_at_once(old: Server, new: Server, tally: VoteTally)
    requires
        begins_election(old, new, tally),
    ensures
        new.state_spec() == (if old.peers_spec().len() == 0 {
            ServerState::Leader
        } else {
            ServerState::Candidate
        }),
{
}

/// On a client write the leader sends an `AppendEntries` request to each of its
/// peers that it tracks with a next index at most one past the end of its new
/// log, however far behind that peer is, and to no other server. A request to a
/// peer whose next index lies within the new log ends with the new entry.
pub proof fn lemma_client_write_reaches_every_peer_within_the_log(
    old: Server,
    new: Server,
    command: Command,
    action: ClientRequestAction,
    p: NodeId,
)
    requires
        handles_client_write(old, new, command, action),
        old.state_spec() == ServerState::Leader,
    ensures
        action matches ClientRequestAction::Replicate { requests, .. } && {
            &&& (exists|i: int| 0 <= i < requests@.len() && #[trigger] requests@[i].0 == p) <==> {
                &&& old.peers_spec().contains(p)
                &&& old.next_indices_spec().contains_key(p.bits())
                &&& old.next_indices_spec()[p.bits()] <= new.log_spec().len() + 1
            }
            &&& forall|i: int|
                0 <= i < requests@.len() && old.next_indices_spec()[#[trigger] requests@[i].0.bits()]
                    <= new.log_spec().len() ==> (requests@[i].1.body_spec() matches ServerRequestBody::AppendEntries {
                    entries,
                    ..
                } && entries@.len() > 0 && entries@.last() == new.log_spec().last())
        },
{
    let requests = action->requests;
    let peers = new.peers_spec();
    let pred = |q: NodeId| new.replicable(q);
    let rp = new.replicable_peers();
    assert(rp == peers.filter(pred));
    if exists|i: int| 0 <= i < requests@.len() && #[trigger] requests@[i].0 == p {
        let i = choose|i: int| 0 <= i < requests@.len() && #[trigger] requests@[i].0 == p;
        assert(rp[i] == p);
        assert(rp.contains(p));
        peers.lemma_filter_contains_rev(pred, p);
        peers.lemma_filter_pred(pred, i);
    }
    if old.peers_spec().contains(p) && new.replicable(p) {
        let k = choose|k: int| 0 <= k < peers.len() && peers[k] == p;
        peers.lemma_filter_contains(pred, k);
        let j = choose|j: int| 0 <= j < rp.len() && rp[j] == p;
        assert(requests@[j].0 == p);
    }
    assert forall|i: int|
        0 <= i < requests@.len() && old.next_indices_spec()[#[trigger] requests@[i].0.bits()]
            <= new.log_spec().len() implies (requests@[i].1.body_spec() matches ServerRequestBody::AppendEntries {
        entries,
        ..
    } && entries@.len() > 0 && entries@.last() == new.log_spec().last()) by {
        assert(new.is_append_entries_for(requests@[i].0, requests@[i].1));
        let next = new.next_indices_spec()[requests@[i].0.bits()];
        assert(first_position(next) < new.log_spec().len());
    }
}

/// An `AppendEntries` request carries the leader's log from the entry at the
/// peer's next index on (indices count from 1, so from position `next - 1`, or
/// from the start when the next index is 0) to its last entry, in order, and
/// the leader's identifier, term and commit index.
pub proof fn lemma_append_entries_carries_the_log_from_next(s: Server, peer: NodeId, r: ServerRequest)
    requires
        s.is_append_entries_for(peer, r),
        s.next_indices_spec()[peer.bits()] <= s.log_spec().len() + 1,
    ensures
        r.headers_spec().node_id == s.id_spec(),
        r.headers_spec().term == s.current_term_spec(),
        r.body_spec() matches ServerRequestBody::AppendEntries { leader_id, entries, leader_commit, .. } && {
            let next = s.next_indices_spec()[peer.bits()] as int;
            let from = if next > 0 {
                next - 1
            } else {
                0
            };
            &&& leader_id == s.id_spec()
            &&& leader_commit == s.commit_index_spec()
            &&& entries@.len() == s.log_spec().len() - from
            &&& forall|k: int| 0 <= k < entries@.len() ==> #[trigger] entries@[k] == s.log_spec()[from + k]
        },
{
}

/// A response of a newer term shows any server that its term is out of date:
/// whatever its state, it adopts that term, forgets the leader and is a
/// follower, keeping its vote, log and tally.
pub proof fn lemma_newer_term_response_makes_a_follower(
    old: Server,
    new: Server,
    old_tally: VoteTally,
    new_tally: VoteTally,
    res: ServerResponse,
)
    requires
        takes_response(old, new, old_tally, new_tally, res),
        res.headers_spec().term > old.current_term_spec(),
    ensures
        new.state_spec() == ServerState::Follower,
        new.current_term_spec() == res.headers_spec().term,
        new.current_leader_spec() is None,
        new.voted_for_spec() == old.voted_for_spec(),
        new.log_spec() == old.log_spec(),
        new_tally == old_tally,
{
}

/// A leader follows each follower's progress: after a successful
/// `AppendEntries` the follower's next index is just after the leader's last
/// log index (1 for an empty log) and the commit index is the committable index
/// of the next indices it held; after a rejection the follower's next index
/// drops by exactly one, but not below 1, and the commit index stays. Its log,
/// term and leadership are unchanged, and the other followers' next indices
/// too.
pub proof fn lemma_leader_follows_each_followers_progress(
    old: Server,
    new: Server,
    old_tally: VoteTally,
    new_tally: VoteTally,
    res: ServerResponse,
    other: u128,
)
    requires
        takes_response(old, new, old_tally, new_tally, res),
        old.state_spec() == ServerState::Leader,
        res.headers_spec().term <= old.current_term_spec(),
        res.body_spec() is AppendEntries,
        other != res.headers_spec().node_id.bits(),
        old.log_spec().len() > 0 ==> old.log_spec().last().index_spec() < usize::MAX,
    ensures
        new.state_spec() == ServerState::Leader,
        new.current_term_spec() == old.current_term_spec(),
        new.log_spec() == old.log_spec(),
        new.next_indices_spec().contains_key(other) == old.next_indices_spec().contains_key(other),
        old.next_indices_spec().contains_key(other) ==> new.next_indices_spec()[other]
            == old.next_indices_spec()[other],
        ({
            let sender = res.headers_spec().node_id.bits();
            if res.body_spec() == (ServerResponseBody::AppendEntries { success: true }) {
                &&& new.next_indices_spec().contains_key(sender)
                &&& new.next_indices_spec()[sender] == (if old.log_spec().len() == 0 {
                    1
                } else {
                    old.log_spec().last().index_spec() + 1
                })
                &&& new.commit_index_spec() == match committable_index_spec(old.next_indices_spec()) {
                    Some(i) => i,
                    None => 0usize,
                }
            } else {
                &&& new.commit_index_spec() == old.commit_index_spec()
                &&& new.next_indices_spec().contains_key(sender) == old.next_indices_spec().contains_key(
                    sender,
                )
                &&& old.next_indices_spec().contains_key(sender) ==> new.next_indices_spec()[sender] == (if old.next_indices_spec()[sender] > 1 {
                    old.next_indices_spec()[sender] - 1
                } else {
                    old.next_indices_spec()[sender] as int
                })
            }
        }),
{
}

/// When a candidate comes to power, every one of its peers gets a next index
/// just after the last index in its log (1 for an empty log) and a match index
/// of 0, and it tracks no other server.
pub proof fn lemma_new_leader_starts_every_peer_after_its_log(old: Server, new: Server, p: NodeId)
    requires
        takes_office(old, new),
    ensures
        new.next_indices_spec().contains_key(p.bits()) <==> old.peers_spec().map_values(|q: NodeId| q.bits()).contains(p.bits()),
        old.peers_spec().contains(p) ==> {
            &&& new.next_indices_spec().contains_key(p.bits())
            &&& new.next_indices_spec()[p.bits()] == (if old.log_spec().len() == 0 {
                1
            } else {
                old.log_spec().last().index_spec() + 1
            })
            &&& new.match_indices_spec().contains_key(p.bits())
            &&& new.match_indices_spec()[p.bits()] == 0
        },
{
    let bits = old.peers_spec().map_values(|q: NodeId| q.bits());
    if old.peers_spec().contains(p) {
        let k = choose|k: int| 0 <= k < old.peers_spec().len() && old.peers_spec()[k] == p;
        assert(bits[k] == p.bits());
        assert(bits.contains(p.bits()));
    }
}

/// A client write appends exactly one entry to the leader's log, after all the
/// others, holding the command, in the leader's current term and under the
/// index just after its last entry's (1 for an empty log); nothing else in the
/// log changes, and the leader stays the leader of its term.
pub proof fn lemma_client_write_appends_one_entry(
    old: Server,
    new: Server,
    command: Command,
    action: ClientRequestAction,
)
    requires
        handles_client_write(old, new, command, action),
        old.state_spec() == ServerState::Leader,
    ensures
        new.log_spec().len() == old.log_spec().len() + 1,
        forall|k: int| 0 <= k < old.log_spec().len() ==> #[trigger] new.log_spec()[k] == old.log_spec()[k],
        new.log_spec()[old.log_spec().len() as int].command_spec() == command,
        new.log_spec()[old.log_spec().len() as int].term_spec() == old.current_term_spec(),
        new.log_spec()[old.log_spec().len() as int].index_spec() == (if old.log_spec().len() == 0 {
            1
        } else {
            old.log_spec().last().index_spec() + 1
        }),
        new.state_spec() == ServerState::Leader,
        new.current_term_spec() == old.current_term_spec(),
{
    assert forall|k: int| 0 <= k < old.log_spec().len() implies #[trigger] new.log_spec()[k]
        == old.log_spec()[k] by {
        assert(new.log_spec().drop_last()[k] == new.log_spec()[k]);
    }
}

} // verus!
