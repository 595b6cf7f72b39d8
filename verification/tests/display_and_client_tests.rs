use mini_raft_rs::client::request::ClientResponse;
use mini_raft_rs::client::{Client, RandomDataClient};
use mini_raft_rs::cluster::ClusterConfig;
use mini_raft_rs::domain::node_id::NodeId;
use mini_raft_rs::server::log::{ServerLog, ServerLogEntry};
use mini_raft_rs::state_machine::{Command, InMemoryStateMachine, Op, StateKey};
use mini_raft_rs::text::{i64_text, padded_right, usize_text};
use mini_raft_rs::timeout::TimeoutRange;

#[test]
fn integers_render_in_decimal() {
    assert_eq!(i64_text(0), "0");
    assert_eq!(i64_text(42), "42");
    assert_eq!(i64_text(-7), "-7");
    assert_eq!(i64_text(i64::MIN), i64::MIN.to_string());
    assert_eq!(i64_text(i64::MAX), i64::MAX.to_string());
    assert_eq!(usize_text(1000), "1000");
    assert_eq!(padded_right("1".to_string(), 3), "1  ");
    assert_eq!(padded_right("1234".to_string(), 3), "1234");
}

#[test]
fn commands_and_snapshots_display_as_expected() {
    let c = Command::new(Op::Increment, StateKey::X, 5);
    assert_eq!(c.to_display_string(), "{ command: [ State.X += 5 ] }");
    let c = Command::new(Op::Replace, StateKey::Z, -4);
    assert_eq!(c.to_display_string(), "{ command: [ State.Z <= -4 ] }");
    let snap = InMemoryStateMachine::with_values(1, -2, 3).get_snapshot();
    assert_eq!(snap.to_display_string(), "{ X => 1, Y => -2, Z => 3 }");
}

#[test]
fn log_entries_display_their_term_and_command() {
    let c = Command::new(Op::Decrement, StateKey::Y, 10);
    let e = ServerLogEntry::new(1, 7, c);
    assert_eq!(e.to_display_string(), "7  : { command: [ State.Y -= 10 ] }");
    let mut log = ServerLog::new();
    assert_eq!(log.to_display_string(), "[\n]");
    log.append_cmd(1, 12, c);
    assert_eq!(log.to_display_string(), "[\n  12 : { command: [ State.Y -= 10 ] }\n]");
}

#[test]
fn node_ids_display_the_start_of_their_uuid() {
    let id = NodeId::from_u128(0x67e55044_10b1_426f_9247_bb680e5fe0c8);
    assert_eq!(id.to_display_string(), "[ 67e55044-10... ]");
    assert_eq!(id.as_u128(), 0x67e55044_10b1_426f_9247_bb680e5fe0c8);
}

#[test]
fn new_node_ids_are_version_four_uuids() {
    let id = NodeId::new();
    let uuid = uuid::Uuid::from_u128(id.as_u128());
    assert_eq!(uuid.get_version_num(), 4);
    assert_ne!(NodeId::new(), NodeId::new());
    let _ = NodeId::default();
}

#[test]
fn client_response_keeps_its_fields() {
    let snap = InMemoryStateMachine::with_values(1, 2, 3).get_snapshot();
    let res = ClientResponse::new(true, snap);
    assert!(res.success());
    assert_eq!(res.snapshot(), &snap);
}

#[test]
fn random_data_client_builds_and_connects() {
    let client = RandomDataClient::init().with_request_interval_range(10, 20);
    let connected = client.connect_to_cluster(vec![1u8, 2, 3]);
    assert_eq!(connected.id(), "[ RndmDataClient ]");
    assert_eq!(connected.min_request_interval_ms(), 10);
    assert_eq!(connected.max_request_interval_ms(), 20);
    assert_eq!(connected.peer_list(), &vec![1u8, 2, 3]);

    let defaults = RandomDataClient::init().connect_to_cluster(());
    assert_eq!(defaults.min_request_interval_ms(), 150);
    assert_eq!(defaults.max_request_interval_ms(), 300);
}

#[test]
fn commands_from_draws_pick_from_the_lists() {
    let c = RandomDataClient::<()>::command_from_draws(0, 2, 17);
    assert_eq!((c.op(), c.key(), c.value()), (Op::Increment, StateKey::Z, 17));
    let c = RandomDataClient::<()>::command_from_draws(1, 0, 0);
    assert_eq!((c.op(), c.key(), c.value()), (Op::Decrement, StateKey::X, 0));
    let c = RandomDataClient::<()>::command_from_draws(2, 1, 100);
    assert_eq!((c.op(), c.key(), c.value()), (Op::Replace, StateKey::Y, 100));
    for _ in 0..50 {
        let c = RandomDataClient::<()>::random_command();
        assert!((0..=100).contains(&c.value()));
    }
}

#[test]
fn timeout_ranges_draw_within_bounds() {
    let range = TimeoutRange::new(10, 12);
    let mut seen = std::collections::HashSet::new();
    for _ in 0..300 {
        let draw = range.random();
        assert!((10..=12).contains(&draw));
        seen.insert(draw);
    }
    // Draws are spread over the range, not stuck at one end.
    assert_eq!(seen.len(), 3);
    assert_eq!(TimeoutRange::new(5, 5).random(), 5);
}

#[test]
fn cluster_config_defaults_and_builders() {
    let c = ClusterConfig::default();
    assert_eq!(
        (c.node_count(), c.heartbeat_interval(), c.min_election_timeout_ms(), c.max_election_timeout_ms()),
        (5, 50, 150, 300)
    );
    let c = c.with_node_count(3).with_heartbeat_interval(20).with_election_timeout_range(100, 200);
    assert_eq!(
        (c.node_count(), c.heartbeat_interval(), c.min_election_timeout_ms(), c.max_election_timeout_ms()),
        (3, 20, 100, 200)
    );
}
