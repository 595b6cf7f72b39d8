use mini_raft_rs::domain::node_id::NodeId;
use mini_raft_rs::server::cluster_connection::{ClusterConnection, SyncTermSideEffect};
use mini_raft_rs::server::log::ServerLog;
use mini_raft_rs::server::request::{
    Message, ServerMessagePayload, ServerRequest, ServerRequestBody, ServerRequestHeaders,
    ServerResponse, ServerResponseBody, ServerResponseHeaders,
};
use mini_raft_rs::server::{ClientRequestAction, Server, ServerState, VoteTally};
use mini_raft_rs::state_machine::{Command, Op, StateKey};

fn id(n: u128) -> NodeId {
    NodeId::from_u128(n)
}

fn vote_request(from: u128, term: usize) -> ServerRequest {
    ServerRequest::new(
        ServerRequestHeaders { node_id: id(from), term },
        ServerRequestBody::RequestVote { candidate_id: id(from) },
    )
}

fn append_request(from: u128, term: usize) -> ServerRequest {
    ServerRequest::new(
        ServerRequestHeaders { node_id: id(from), term },
        ServerRequestBody::AppendEntries {
            leader_id: id(from),
            prev_log_index: 0,
            prev_log_term: 0,
            entries: vec![],
            leader_commit: 0,
        },
    )
}

fn vote_response(from: u128, term: usize, vote_granted: bool) -> ServerResponse {
    ServerResponse::new(
        ServerResponseHeaders { node_id: id(from), term },
        ServerResponseBody::RequestVote { vote_granted },
    )
}

fn append_response(from: u128, term: usize, success: bool) -> ServerResponse {
    ServerResponse::new(
        ServerResponseHeaders { node_id: id(from), term },
        ServerResponseBody::AppendEntries { success },
    )
}

fn five_node_server() -> Server {
    Server::new(id(1), vec![id(1), id(2), id(3), id(4), id(5)])
}

#[test]
fn starts() {
    let server = Server::new(NodeId::new(), vec![])
        .heartbeat_interval_ms(5)
        .election_timeout_range(10, 20);
    assert_eq!(server.heartbeat_interval(), 5);
    let timeout = server.generate_random_timeout();
    assert!((10..=20).contains(&timeout));
}

#[test]
fn new_server_is_a_follower_without_itself_among_its_peers() {
    let server = Server::new(id(1), vec![id(2), id(1), id(3), id(2)]);
    assert_eq!(server.state(), ServerState::Follower);
    assert_eq!(server.current_term(), 0);
    assert_eq!(server.voted_for(), None);
    assert_eq!(server.commit_index(), 0);
    assert_eq!(server.log().len(), 0);
    assert_eq!(server.peer_ids(), vec![id(2), id(3)]);
    let timeout = server.generate_random_timeout();
    assert!((750..=1000).contains(&timeout));
    assert_eq!(server.heartbeat_interval(), 374);
}

#[test]
fn follower_grants_first_vote_and_refuses_a_second_candidate() {
    let mut server = five_node_server();
    let res = server.handle_request(&vote_request(2, 3));
    assert_eq!(res.body(), &ServerResponseBody::RequestVote { vote_granted: true });
    // The answer carries the term the vote was granted in.
    assert_eq!(res.term(), 3);
    assert_eq!(res.sender_id(), id(1));
    assert_eq!(server.current_term(), 3);
    assert_eq!(server.voted_for(), Some(id(2)));

    let res = server.handle_request(&vote_request(3, 3));
    assert_eq!(res.body(), &ServerResponseBody::RequestVote { vote_granted: false });
    assert_eq!(res.term(), 3);
    assert_eq!(server.current_term(), 3);
    assert_eq!(server.voted_for(), Some(id(2)));

    // The same candidate asking again is granted.
    let res = server.handle_request(&vote_request(2, 3));
    assert_eq!(res.body(), &ServerResponseBody::RequestVote { vote_granted: true });
    assert_eq!(server.current_term(), 3);

    // A newer term opens a new vote.
    let res = server.handle_request(&vote_request(3, 4));
    assert_eq!(res.body(), &ServerResponseBody::RequestVote { vote_granted: true });
    assert_eq!(server.current_term(), 4);
    assert_eq!(server.voted_for(), Some(id(3)));
}

#[test]
fn follower_rejects_stale_append_entries_and_accepts_current_ones() {
    let mut server = five_node_server();
    server.set_current_term(|_| 5);
    let res = server.handle_request(&append_request(2, 4));
    assert_eq!(res.body(), &ServerResponseBody::AppendEntries { success: false });
    assert_eq!(res.term(), 5);
    assert_eq!(server.voted_for(), None);

    let res = server.handle_request(&append_request(2, 6));
    assert_eq!(res.body(), &ServerResponseBody::AppendEntries { success: true });
    assert_eq!(res.term(), 6);
    assert_eq!(server.current_term(), 6);
    assert_eq!(server.voted_for(), Some(id(2)));
    assert_eq!(server.state(), ServerState::Follower);
}

#[test]
fn timeout_makes_a_follower_a_candidate_that_votes_for_itself() {
    let mut server = five_node_server();
    let tally = server.on_election_timeout().unwrap();
    assert_eq!(server.state(), ServerState::Candidate);
    assert_eq!(server.current_term(), 1);
    assert_eq!(server.voted_for(), Some(id(1)));
    assert_eq!(tally.votes(), 0);
    assert_eq!(tally.term(), 1);

    // A candidate whose election times out begins a new one.
    let tally = server.on_election_timeout().unwrap();
    assert_eq!(server.state(), ServerState::Candidate);
    assert_eq!(server.current_term(), 2);
    assert_eq!(tally.term(), 2);

    let req = server.request_vote_request();
    assert_eq!(req.term(), 2);
    assert_eq!(req.sender_id(), id(1));
    match req.body() {
        ServerRequestBody::RequestVote { candidate_id } => assert_eq!(*candidate_id, id(1)),
        _ => panic!("expected a vote request"),
    }
}

#[test]
fn candidate_becomes_leader_on_a_majority_of_the_full_cluster() {
    // Five servers: the candidate's own vote and two granted ones make three.
    let mut server = five_node_server();
    let mut tally = server.on_election_timeout().unwrap();
    assert!(!server.handle_response(&mut tally, &vote_response(2, 1, true)));
    assert!(!server.handle_response(&mut tally, &vote_response(3, 1, false)));
    assert_eq!(server.state(), ServerState::Candidate);
    assert!(server.handle_response(&mut tally, &vote_response(4, 1, true)));
    assert_eq!(tally.votes(), 2);
    assert_eq!(server.state(), ServerState::Leader);
}

#[test]
fn candidate_of_an_even_cluster_needs_more_than_half() {
    // Four servers: the candidate's own vote and one granted one make only two.
    let mut server = Server::new(id(1), vec![id(2), id(3), id(4)]);
    let mut tally = server.on_election_timeout().unwrap();
    assert!(!server.handle_response(&mut tally, &vote_response(2, 1, true)));
    assert_eq!(server.state(), ServerState::Candidate);
    assert!(server.handle_response(&mut tally, &vote_response(3, 1, true)));
    assert_eq!(server.state(), ServerState::Leader);
}

#[test]
fn lone_server_wins_with_its_own_vote() {
    let mut server = Server::new(id(1), vec![]);
    let tally = server.on_election_timeout().unwrap();
    assert_eq!(server.state(), ServerState::Leader);
    assert_eq!(server.current_term(), 1);
    assert_eq!(server.voted_for(), Some(id(1)));
    assert_eq!(tally.votes(), 0);
}

#[test]
fn candidate_counts_each_peer_once_and_only_votes_of_its_term() {
    let mut server = five_node_server();
    server.on_election_timeout();
    // An election of term 2; a vote granted in the election of term 1 is late.
    let mut tally = server.on_election_timeout().unwrap();
    assert!(!server.handle_response(&mut tally, &vote_response(2, 1, true)));
    assert_eq!(tally.votes(), 0);
    assert!(!server.handle_response(&mut tally, &vote_response(2, 2, true)));
    // The same voter again, and a server that is no peer, are not counted.
    assert!(!server.handle_response(&mut tally, &vote_response(2, 2, true)));
    assert!(!server.handle_response(&mut tally, &vote_response(9, 2, true)));
    assert_eq!(tally.votes(), 1);
    assert_eq!(tally.voters(), &vec![id(2)]);
    assert_eq!(server.state(), ServerState::Candidate);
    assert!(server.handle_response(&mut tally, &vote_response(3, 2, true)));
    assert_eq!(server.state(), ServerState::Leader);
}

#[test]
fn candidate_steps_down_on_a_response_of_a_newer_term() {
    let mut server = five_node_server();
    let mut tally = server.on_election_timeout().unwrap();
    assert!(server.handle_response(&mut tally, &vote_response(2, 4, false)));
    assert_eq!(server.state(), ServerState::Follower);
    assert_eq!(server.current_term(), 4);
    assert_eq!(server.voted_for(), Some(id(1)));
    assert_eq!(tally.votes(), 0);
}

#[test]
fn candidate_steps_down_for_a_leader_of_its_term() {
    let mut server = five_node_server();
    server.on_election_timeout();
    let res = server.handle_request(&append_request(3, 1));
    assert_eq!(res.body(), &ServerResponseBody::AppendEntries { success: true });
    assert_eq!(server.state(), ServerState::Follower);
    assert_eq!(server.voted_for(), Some(id(3)));
}

#[test]
fn candidate_refuses_another_candidate_of_its_own_term() {
    let mut server = five_node_server();
    server.on_election_timeout();
    let res = server.handle_request(&vote_request(4, 1));
    assert_eq!(res.body(), &ServerResponseBody::RequestVote { vote_granted: false });
    assert_eq!(res.term(), 1);
    assert_eq!(server.state(), ServerState::Candidate);
    assert_eq!(server.current_term(), 1);
    assert_eq!(server.voted_for(), Some(id(1)));
}

#[test]
fn candidate_grants_a_vote_of_a_newer_term_and_steps_down() {
    let mut server = five_node_server();
    server.on_election_timeout();
    let res = server.handle_request(&vote_request(4, 2));
    assert_eq!(res.body(), &ServerResponseBody::RequestVote { vote_granted: true });
    assert_eq!(res.term(), 2);
    assert_eq!(server.state(), ServerState::Follower);
    assert_eq!(server.current_term(), 2);
    assert_eq!(server.voted_for(), Some(id(4)));
}

#[test]
fn candidate_refuses_stale_vote_requests() {
    let mut server = five_node_server();
    server.on_election_timeout();
    server.on_election_timeout();
    let res = server.handle_request(&vote_request(4, 1));
    assert_eq!(res.body(), &ServerResponseBody::RequestVote { vote_granted: false });
    assert_eq!(res.term(), 2);
    assert_eq!(server.state(), ServerState::Candidate);
}

fn leader() -> Server {
    let mut server = five_node_server();
    let mut tally = server.on_election_timeout().unwrap();
    server.handle_response(&mut tally, &vote_response(2, 1, true));
    server.handle_response(&mut tally, &vote_response(3, 1, true));
    assert_eq!(server.state(), ServerState::Leader);
    server
}

fn replicate(server: &mut Server, cmd: Command) -> Vec<(NodeId, ServerRequest)> {
    match server.handle_client_request(cmd) {
        ClientRequestAction::Replicate { requests, response } => {
            assert!(response.success());
            assert!(*response.snapshot() == server.state_machine());
            requests
        }
        _ => panic!("the leader should replicate"),
    }
}

#[test]
fn leader_appends_client_commands_and_tracks_followers() {
    let mut server = leader();
    // On coming to power every next index is just after the (empty) log.
    assert_eq!(server.get_next_index_for_peer(&id(2)), Some(1));
    let cmd = Command::new(Op::Increment, StateKey::X, 3);
    // Each peer is sent the new entries from its next index on.
    let requests = replicate(&mut server, cmd);
    assert_eq!(requests.len(), 4);
    let requests = replicate(&mut server, cmd);
    assert_eq!(requests.len(), 4);
    assert_eq!(server.log().len(), 2);
    assert_eq!(server.log().last().unwrap().index(), 2);
    assert_eq!(server.log().last().unwrap().term(), 1);

    server.reinitialise_volatile_state();
    assert_eq!(server.get_next_index_for_peer(&id(2)), Some(3));
    assert_eq!(server.get_next_index_for_peer(&id(1)), None);

    // A rejection lowers the follower's next index.
    let mut tally = VoteTally::new(1);
    server.handle_response(&mut tally, &append_response(2, 1, false));
    assert_eq!(server.get_next_index_for_peer(&id(2)), Some(2));
    let req = server.append_entries_request_for_peer(&id(2)).unwrap();
    match req.body() {
        ServerRequestBody::AppendEntries { prev_log_index, prev_log_term, entries, .. } => {
            assert_eq!((*prev_log_index, *prev_log_term), (1, 1));
            assert_eq!(entries.len(), 1);
            assert_eq!(entries[0].index(), 2);
        }
        _ => panic!("expected an AppendEntries request"),
    }
    server.handle_response(&mut tally, &append_response(2, 1, false));
    assert_eq!(server.get_next_index_for_peer(&id(2)), Some(1));

    let req = server.append_entries_request_for_peer(&id(2)).unwrap();
    match req.body() {
        ServerRequestBody::AppendEntries {
            leader_id,
            prev_log_index,
            prev_log_term,
            entries,
            leader_commit,
        } => {
            assert_eq!(*leader_id, id(1));
            assert_eq!((*prev_log_index, *prev_log_term), (0, 0));
            assert_eq!(entries.len(), 2);
            assert_eq!(entries[0].index(), 1);
            assert_eq!(entries[1].index(), 2);
            assert_eq!(*leader_commit, 0);
        }
        _ => panic!("expected an AppendEntries request"),
    }

    // A success sets the commit index from the followers' next indices.
    server.handle_response(&mut tally, &append_response(2, 1, true));
    assert_eq!(server.get_next_index_for_peer(&id(2)), Some(3));
    assert_eq!(server.commit_index(), 2);
}

#[test]
fn only_the_leader_appends_client_commands() {
    let mut server = five_node_server();
    let cmd = Command::new(Op::Replace, StateKey::Y, 1);
    match server.handle_client_request(cmd) {
        ClientRequestAction::Redirect { leader } => assert_eq!(leader, None),
        _ => panic!("a follower should redirect"),
    }
    assert_eq!(server.log().len(), 0);
}

#[test]
fn follower_redirects_clients_to_the_leader_it_follows() {
    let mut server = five_node_server();
    server.handle_request(&append_request(3, 2));
    assert_eq!(server.current_leader(), Some(id(3)));
    let cmd = Command::new(Op::Increment, StateKey::X, 1);
    match server.handle_client_request(cmd) {
        ClientRequestAction::Redirect { leader } => assert_eq!(leader, Some(id(3))),
        _ => panic!("a follower should redirect"),
    }
    assert_eq!(server.log().len(), 0);
}

#[test]
fn leader_sends_the_new_entry_to_each_peer() {
    let mut server = leader();
    server.reinitialise_volatile_state();
    let cmd = Command::new(Op::Decrement, StateKey::Z, 4);
    let requests = replicate(&mut server, cmd);
    assert_eq!(server.log().len(), 1);
    let peers: Vec<NodeId> = requests.iter().map(|(peer, _)| *peer).collect();
    assert_eq!(peers, vec![id(2), id(3), id(4), id(5)]);
    for (_, req) in &requests {
        assert_eq!(req.term(), 1);
        assert_eq!(req.sender_id(), id(1));
        match req.body() {
            ServerRequestBody::AppendEntries { leader_id, prev_log_index, prev_log_term, entries, leader_commit } => {
                assert_eq!(*leader_id, id(1));
                assert_eq!((*prev_log_index, *prev_log_term), (0, 0));
                assert_eq!(entries.len(), 1);
                assert_eq!(entries[0].index(), 1);
                assert_eq!(entries[0].term(), 1);
                assert_eq!(entries[0].command(), cmd);
                assert_eq!(*leader_commit, 0);
            }
            _ => panic!("expected an AppendEntries request"),
        }
    }
}

#[test]
fn leader_steps_down_on_requests_of_a_newer_term() {
    let mut server = leader();
    let res = server.handle_request(&append_request(3, 1));
    assert_eq!(res.body(), &ServerResponseBody::AppendEntries { success: false });
    assert_eq!(server.state(), ServerState::Leader);

    let res = server.handle_request(&append_request(3, 2));
    assert_eq!(res.body(), &ServerResponseBody::AppendEntries { success: true });
    assert_eq!(res.term(), 2);
    assert_eq!(server.state(), ServerState::Follower);
    assert_eq!(server.current_term(), 2);
    assert_eq!(server.current_leader(), Some(id(3)));

    let mut server = leader();
    let res = server.handle_request(&vote_request(4, 3));
    assert_eq!(res.body(), &ServerResponseBody::RequestVote { vote_granted: true });
    assert_eq!(server.state(), ServerState::Follower);
    assert_eq!(server.current_term(), 3);
    assert_eq!(server.voted_for(), Some(id(4)));
}

#[test]
fn leader_steps_down_on_a_response_of_a_newer_term() {
    let mut server = leader();
    server.reinitialise_volatile_state();
    let mut tally = VoteTally::new(1);
    assert!(server.handle_response(&mut tally, &append_response(2, 5, false)));
    assert_eq!(server.state(), ServerState::Follower);
    assert_eq!(server.current_term(), 5);
    assert_eq!(server.current_leader(), None);
}

#[test]
fn messages_get_one_reply_per_request_and_none_per_response() {
    let mut server = five_node_server();
    let mut tally = VoteTally::new(0);
    let out = server.handle_message(&mut tally, &Message::Request(vote_request(3, 1)));
    let (to, res) = out.reply.unwrap();
    assert_eq!(to, id(3));
    assert_eq!(res.body(), &ServerResponseBody::RequestVote { vote_granted: true });
    assert!(out.restart_election_timer);
    let out = server.handle_message(&mut tally, &Message::Response(vote_response(2, 1, true)));
    assert!(out.reply.is_none());
    assert!(out.restart_election_timer);
    assert_eq!(server.state(), ServerState::Follower);
}

#[test]
fn candidate_keeps_its_election_timer_on_messages() {
    let mut server = five_node_server();
    let mut tally = server.on_election_timeout().unwrap();
    let out = server.handle_message(&mut tally, &Message::Request(vote_request(3, 1)));
    assert!(!out.restart_election_timer);
    assert_eq!(server.state(), ServerState::Candidate);
    // Stepping down for a newer term makes it a follower that waits afresh.
    let out = server.handle_message(&mut tally, &Message::Request(append_request(3, 2)));
    assert!(out.restart_election_timer);
    assert_eq!(server.state(), ServerState::Follower);
}

#[test]
fn leader_builds_a_heartbeat_for_every_peer() {
    let server = leader();
    let requests = server.append_entries_requests().unwrap();
    let peers: Vec<NodeId> = requests.iter().map(|(peer, _)| *peer).collect();
    assert_eq!(peers, vec![id(2), id(3), id(4), id(5)]);
    for (_, req) in &requests {
        match req.body() {
            ServerRequestBody::AppendEntries { entries, .. } => assert!(entries.is_empty()),
            _ => panic!("expected an AppendEntries request"),
        }
    }
    // A server that tracks no next index for its peers has none to build.
    assert!(five_node_server().append_entries_requests().is_none());
}

#[test]
fn leader_answers_reads_and_others_redirect() {
    let server = leader();
    match server.handle_client_read() {
        ClientRequestAction::Answer { response } => {
            assert!(response.success());
            assert!(*response.snapshot() == server.state_machine());
        }
        _ => panic!("the leader should answer"),
    }
    match five_node_server().handle_client_read() {
        ClientRequestAction::Redirect { leader } => assert_eq!(leader, None),
        _ => panic!("a follower should redirect"),
    }
}

#[test]
fn follower_ignores_vote_responses() {
    let mut server = five_node_server();
    let mut tally = VoteTally::new(0);
    assert!(!server.handle_response(&mut tally, &vote_response(2, 0, true)));
    assert_eq!(tally.votes(), 0);
    assert_eq!(server.current_term(), 0);

    // A response of a newer term brings the follower up to that term.
    assert!(!server.handle_response(&mut tally, &vote_response(2, 7, true)));
    assert_eq!(tally.votes(), 0);
    assert_eq!(server.current_term(), 7);
    assert_eq!(server.state(), ServerState::Follower);
}

#[test]
fn cluster_connection_syncs_to_newer_terms_only() {
    let mut conn = ClusterConnection::new(id(9));
    assert_eq!(conn.current_term(), 0);
    assert_eq!(conn.sync_term(3), SyncTermSideEffect::Downgrade);
    assert_eq!(conn.current_term(), 3);
    assert_eq!(conn.sync_term(3), SyncTermSideEffect::NoEffect);
    assert_eq!(conn.sync_term(1), SyncTermSideEffect::NoEffect);
    assert_eq!(conn.current_term(), 3);
    conn.increment_term();
    assert_eq!(conn.current_term(), 4);
    assert_eq!(conn.node_id(), id(9));
}

#[test]
fn messages_wrap_requests_and_responses() {
    let m: Message = vote_response(2, 1, true).into();
    assert!(matches!(m, Message::Response(_)));
    let m: Message = vote_request(2, 1).into();
    assert!(matches!(m, Message::Request(_)));
}

#[test]
fn log_returns_entries_from_a_position() {
    let mut log = ServerLog::new();
    let cmd = Command::new(Op::Increment, StateKey::Z, 1);
    log.append_cmd(1, 1, cmd);
    log.append_cmd(2, 1, cmd);
    log.append_cmd(3, 2, cmd);
    assert_eq!(log.len(), 3);
    let tail = log.entries_from(1);
    assert_eq!(tail.len(), 2);
    assert_eq!(tail[0].index(), 2);
    assert_eq!(tail[1].term(), 2);
    assert_eq!(log.entries_from(3).len(), 0);
    assert_eq!(log.find_by_index(2).unwrap().index(), 2);
    assert!(log.find_by_index(7).is_none());
    assert_eq!(log.last().unwrap().index(), 3);
}

#[test]
fn log_appends_accumulate_in_order() {
    let mut log = ServerLog::default();
    let cmds = [
        Command::new(Op::Increment, StateKey::X, 1),
        Command::new(Op::Replace, StateKey::Y, 2),
        Command::new(Op::Decrement, StateKey::Z, 3),
    ];
    // Indices and terms are recorded as given, unchecked.
    log.append_cmd(7, 2, cmds[0]);
    log.append_cmd(3, 1, cmds[1]);
    log.append_cmd(3, 5, cmds[2]);
    assert_eq!(log.len(), 3);
    let entries = log.entries_from(0);
    let recorded: Vec<(usize, usize)> = entries.iter().map(|e| (e.index(), e.term())).collect();
    assert_eq!(recorded, vec![(7, 2), (3, 1), (3, 5)]);
    assert_eq!(entries[2].command(), cmds[2]);
}

#[test]
fn two_candidates_of_one_term_cannot_both_win() {
    let cluster = vec![id(1), id(2), id(3)];
    let mut a = Server::new(id(1), cluster.clone());
    let mut b = Server::new(id(2), cluster.clone());
    let mut c = Server::new(id(3), cluster);
    let mut tally_a = a.on_election_timeout().unwrap();
    let mut tally_b = b.on_election_timeout().unwrap();
    let to_a = c.handle_request(&a.request_vote_request());
    let to_b = c.handle_request(&b.request_vote_request());
    assert_eq!(to_b.body(), &ServerResponseBody::RequestVote { vote_granted: false });
    let b_to_a = b.handle_request(&a.request_vote_request());
    let a_to_b = a.handle_request(&b.request_vote_request());
    a.handle_response(&mut tally_a, &to_a);
    a.handle_response(&mut tally_a, &b_to_a);
    b.handle_response(&mut tally_b, &to_b);
    b.handle_response(&mut tally_b, &a_to_b);
    assert_eq!(a.state(), ServerState::Leader);
    assert_eq!(b.state(), ServerState::Candidate);
}
