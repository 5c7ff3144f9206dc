use clipsync::table::PeerTable;
use clipsync::types::PeerIp;

#[test]
fn table_insert_get_replace() {
    let mut t: PeerTable<u32> = PeerTable::new();
    assert_eq!(t.len(), 0);
    assert_eq!(t.insert(PeerIp::V4(1), 10), None);
    assert_eq!(t.insert(PeerIp::V6(1), 20), None);
    assert_eq!(t.len(), 2);
    assert_eq!(t.get(PeerIp::V4(1)), Some(&10));
    assert_eq!(t.get(PeerIp::V6(1)), Some(&20));
    assert_eq!(t.insert(PeerIp::V4(1), 11), Some(10));
    assert_eq!(t.len(), 2);
    assert_eq!(t.get(PeerIp::V4(1)), Some(&11));
    assert!(t.contains_key(PeerIp::V6(1)));
    assert!(!t.contains_key(PeerIp::V4(2)));
}

#[test]
fn table_remove_and_clear() {
    let mut t: PeerTable<&str> = PeerTable::new();
    t.insert(PeerIp::V4(1), "a");
    t.insert(PeerIp::V4(2), "b");
    t.insert(PeerIp::V4(3), "c");
    assert_eq!(t.remove(PeerIp::V4(2)), Some("b"));
    assert_eq!(t.remove(PeerIp::V4(2)), None);
    let keys: Vec<PeerIp> = t.entries().iter().map(|e| e.0).collect();
    assert_eq!(keys, vec![PeerIp::V4(1), PeerIp::V4(3)]);
    t.clear();
    assert_eq!(t.len(), 0);
    assert_eq!(t.get(PeerIp::V4(1)), None);
}
