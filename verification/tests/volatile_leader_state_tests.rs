use mini_raft_rs::domain::node_id::NodeId;
use mini_raft_rs::server::volatile_leader_state::VolatileLeaderState;

#[test]
fn initialises_as_expected() {
    for _ in 0..=20 {
        let mut ids = Vec::with_capacity(rand::random_range(1..=20));

        for _ in 0..ids.capacity() {
            ids.push(NodeId::new());
        }

        let last_log_index = rand::random_range(0..=100);
        let volatile_state = VolatileLeaderState::new(ids.clone(), last_log_index);

        for id in ids.iter() {
            assert_eq!(volatile_state.get_next_index(id), last_log_index + 1);
            assert_eq!(volatile_state.get_match_index(id), 0);
        }
    }
}

fn run_highest_committable_index(next_indices: &[usize], expected: Option<usize>) {
    let max = next_indices.iter().max().unwrap_or(&0);
    assert!(next_indices.iter().all(|index| *index > 0 && index <= max));

    let mut ids = Vec::with_capacity(next_indices.len());
    for _ in 0..ids.capacity() {
        ids.push(NodeId::new());
    }

    let mut volatile_state = VolatileLeaderState::new(ids.clone(), *max);
    next_indices.iter().enumerate().for_each(|(i, index)| {
        // Only way to get each nextIndex to the correct value, as there are no
        // accessible setters in the API.
        while volatile_state.get_next_index(&ids[i]) > *index {
            volatile_state.decrement_next_index(ids[i]);
        }
    });

    let actual = volatile_state.highest_committable_index();

    assert_eq!(
        expected, actual,
        "expected answer {expected:?} for {next_indices:?}, got {actual:?}."
    );
}

#[test]
fn returns_the_highest_committable_index() {
    run_highest_committable_index(&[], None);
    run_highest_committable_index(&[1], Some(1 - 1));
    run_highest_committable_index(&[5, 4], Some(5 - 1));
    run_highest_committable_index(&[1, 2, 2, 2, 3], Some(2 - 1));
    run_highest_committable_index(&[2, 2, 3, 2, 5], Some(2 - 1));
    run_highest_committable_index(&[1, 2, 3, 4], Some(3 - 1));
    run_highest_committable_index(&[1, 2, 3, 4, 5], Some(3 - 1));
    run_highest_committable_index(&[1, 2, 4, 2, 5], Some(2 - 1));
    run_highest_committable_index(&[10, 10, 5, 5], Some(10 - 1));
    run_highest_committable_index(&[10, 5, 5], Some(5 - 1));
}

#[test]
fn decrements_never_go_below_one() {
    let id = NodeId::from_u128(7);
    let mut state = VolatileLeaderState::new(vec![id], 1);
    assert_eq!(state.get_next_index(&id), 2);
    state.decrement_next_index(id);
    assert_eq!(state.get_next_index(&id), 1);
    state.decrement_next_index(id);
    assert_eq!(state.get_next_index(&id), 1);

    state.set_match_index(id, 2);
    state.decrement_match_index(id);
    assert_eq!(state.get_match_index(&id), 1);
    state.decrement_match_index(id);
    assert_eq!(state.get_match_index(&id), 1);
}

#[test]
fn decrementing_an_unknown_id_changes_nothing() {
    let known = NodeId::from_u128(1);
    let unknown = NodeId::from_u128(2);
    let mut state = VolatileLeaderState::new(vec![known], 4);
    state.decrement_next_index(unknown);
    state.decrement_match_index(unknown);
    assert!(!state.contains_next_index(&unknown));
    assert_eq!(state.get_next_index(&known), 5);
}

#[test]
fn set_next_index_overwrites_and_adds() {
    let a = NodeId::from_u128(1);
    let b = NodeId::from_u128(2);
    let mut state = VolatileLeaderState::new(vec![a], 0);
    state.set_next_index(a, 9);
    state.set_next_index(b, 3);
    assert_eq!(state.get_next_index(&a), 9);
    assert_eq!(state.get_next_index(&b), 3);
    assert_eq!(state.highest_committable_index(), Some(8));
}

#[test]
fn duplicate_ids_are_tracked_once() {
    let a = NodeId::from_u128(5);
    let state = VolatileLeaderState::new(vec![a, a, a], 0);
    assert_eq!(state.highest_committable_index(), Some(0));
    let cloned = state.clone();
    assert_eq!(cloned.get_next_index(&a), 1);
}

#[test]
fn raising_a_next_index_never_lowers_the_committable_index() {
    let ids: Vec<NodeId> = (1..=5).map(NodeId::from_u128).collect();
    let mut state = VolatileLeaderState::new(ids.clone(), 1);
    // Next indices 2, 2, 2, 2, 2: committable index 1.
    assert_eq!(state.highest_committable_index(), Some(1));
    state.set_next_index(ids[0], 9);
    assert_eq!(state.highest_committable_index(), Some(1));
    state.set_next_index(ids[1], 7);
    assert_eq!(state.highest_committable_index(), Some(1));
    state.set_next_index(ids[2], 5);
    // Next indices 9, 7, 5, 2, 2: the middle value is 5.
    assert_eq!(state.highest_committable_index(), Some(4));
    state.set_next_index(ids[3], 6);
    assert_eq!(state.highest_committable_index(), Some(5));
}
