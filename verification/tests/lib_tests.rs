use mini_raft_rs::does;

#[test]
fn it_does() {
    assert!(does());
}
