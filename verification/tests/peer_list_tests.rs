use mini_raft_rs::domain::node_id::NodeId;
use mini_raft_rs::server::peer_list::ServerPeerList;

fn id(n: u128) -> NodeId {
    NodeId::from_u128(n)
}

#[test]
fn peer_list_inserts_gets_and_removes() {
    let mut list: ServerPeerList<&str> = ServerPeerList::new();
    assert_eq!(list.insert(id(1), "one"), None);
    assert_eq!(list.insert(id(2), "two"), None);
    assert_eq!(list.insert(id(1), "uno"), Some("one"));
    assert_eq!(list.get(&id(1)), Some(&"uno"));
    assert_eq!(list.len(), 2);
    assert_eq!(list.remove(&id(2)), Some("two"));
    assert_eq!(list.remove(&id(2)), None);
    assert_eq!(list.get(&id(2)), None);
    assert_eq!(list.ids(), vec![id(1)]);
}

#[test]
fn peer_list_from_pairs_keeps_the_last_handle_per_id() {
    let list = ServerPeerList::from_pairs(vec![(id(1), 10), (id(2), 20), (id(1), 11)]);
    assert_eq!(list.len(), 2);
    assert_eq!(list.get(&id(1)), Some(&11));
    assert_eq!(list.get(&id(2)), Some(&20));
    let mut ids = list.ids();
    ids.sort_by_key(|i| i.as_u128());
    assert_eq!(ids, vec![id(1), id(2)]);
    let copy = list.clone();
    assert_eq!(copy.get(&id(1)), Some(&11));
}

#[test]
fn random_peer_picks_a_member() {
    let list = ServerPeerList::from_pairs(vec![(id(1), 'a'), (id(2), 'b'), (id(3), 'c')]);
    for _ in 0..30 {
        let (peer, handle) = list.random_peer();
        assert_eq!(list.get(&peer), Some(&handle));
    }
}
