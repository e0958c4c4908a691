// Unit tests of the identifier arithmetic, the node record, the hash, the
// finger-table scan, and the state transitions of a single node.

use chord_rust::node::{calculate_hash, construct_node, Node};
use chord_rust::ring::{in_half_open_right, in_open};
use chord_rust::server::NodeServer;

fn mk_node(id: u64) -> Node {
    Node { id, addr: format!("localhost:{}", 9800 + id) }
}

#[test]
fn test_in_open() {
    // plain arcs
    assert!(in_open(5, 3, 8));
    assert!(!in_open(3, 3, 8));
    assert!(!in_open(8, 3, 8));
    assert!(!in_open(9, 3, 8));
    // wrapping arcs
    assert!(in_open(62, 60, 2));
    assert!(in_open(1, 60, 2));
    assert!(!in_open(2, 60, 2));
    assert!(!in_open(30, 60, 2));
    // the arc wraps across zero: 0 lies in (2^6 - 1, 1)
    assert!(in_open(0, 63, 1));
    // and on the full 64-bit ring
    assert!(in_open(0, u64::MAX, 1));
    // degenerate arc: everything but the endpoint
    assert!(in_open(7, 5, 5));
    assert!(!in_open(5, 5, 5));
}

#[test]
fn test_in_half_open_right() {
    assert!(in_half_open_right(8, 3, 8));
    assert!(in_half_open_right(5, 3, 8));
    assert!(!in_half_open_right(3, 3, 8));
    assert!(!in_half_open_right(9, 3, 8));
    // wrapping arcs include the right endpoint
    assert!(in_half_open_right(2, 60, 2));
    assert!(in_half_open_right(0, 60, 2));
    assert!(!in_half_open_right(60, 60, 2));
    assert!(!in_half_open_right(30, 60, 2));
    // degenerate arc: the whole ring
    assert!(in_half_open_right(0, 5, 5));
    assert!(in_half_open_right(5, 5, 5));
}

#[test]
fn test_finger_table_start() {
    let s = NodeServer::new_with_bits(&mk_node(0), 6);
    assert_eq!(s.finger_table_start(0), 1);
    assert_eq!(s.finger_table_start(1), 2);
    assert_eq!(s.finger_table_start(2), 4);
    assert_eq!(s.finger_table_start(5), 32);
    // wraps modulo 2^6
    let t = NodeServer::new_with_bits(&mk_node(63), 6);
    assert_eq!(t.finger_table_start(0), 0);
    assert_eq!(t.finger_table_start(1), 1);
    assert_eq!(t.finger_table_start(5), 31);
    // the full 64-bit space wraps at the top of u64
    let u = NodeServer::new(&mk_node(u64::MAX));
    assert_eq!(u.finger_table_start(0), 0);
    assert_eq!(u.finger_table_start(63), u64::MAX - (1u64 << 63));
    let v = NodeServer::new(&mk_node(7));
    assert_eq!(v.finger_table_start(10), 7 + 1024);
}

#[test]
fn test_hash_deterministic() {
    // hashing the same address twice yields the same identifier
    assert_eq!(calculate_hash(b"localhost:9800"), calculate_hash(b"localhost:9800"));
    let a = construct_node("localhost:9800");
    let b = construct_node("localhost:9800");
    assert_eq!(a.id, b.id);
    assert_eq!(a.addr, "localhost:9800");
    assert_eq!(a.id, calculate_hash("localhost:9800".as_bytes()));
}

#[test]
fn test_new_seeds_fingers_with_self() {
    let s = NodeServer::new_with_bits(&mk_node(9), 6);
    assert_eq!(s.node.id, 9);
    assert_eq!(s.get_successor().id, 9);
    assert_eq!(s.get_predecessor().unwrap().id, 9);
    assert_eq!(s.finger_table.len(), 6);
    for k in 0..6 {
        assert_eq!(s.get_finger(k).id, 9);
    }
    let full = NodeServer::new(&mk_node(9));
    assert_eq!(full.finger_table.len(), 64);
}

#[test]
fn test_join_resets_predecessor() {
    let mut s = NodeServer::new_with_bits(&mk_node(1), 6);
    s.join(mk_node(0));
    assert_eq!(s.get_successor().id, 0);
    assert!(s.get_predecessor().is_none());
    // fingers still point at the node itself
    for k in 0..6 {
        assert_eq!(s.get_finger(k).id, 1);
    }
}

#[test]
fn test_fix_fingers_updates_one_entry() {
    let mut s = NodeServer::new_with_bits(&mk_node(0), 6);
    s.fix_fingers(2, mk_node(5));
    for k in 0..6 {
        let expect = if k == 2 { 5 } else { 0 };
        assert_eq!(s.get_finger(k).id, expect);
    }
    assert_eq!(s.get_successor().id, 0);
}

#[test]
fn test_closest_preceding_finger() {
    let mut s = NodeServer::new_with_bits(&mk_node(0), 6);
    s.fix_fingers(0, mk_node(1));
    s.fix_fingers(1, mk_node(3));
    s.fix_fingers(2, mk_node(5));
    // the highest finger strictly inside (0, target) wins
    assert_eq!(s.closest_preceding_finger(6).id, 5);
    assert_eq!(s.closest_preceding_finger(5).id, 3);
    assert_eq!(s.closest_preceding_finger(4).id, 3);
    assert_eq!(s.closest_preceding_finger(2).id, 1);
    // no finger qualifies: the node answers with itself
    assert_eq!(s.closest_preceding_finger(1).id, 0);
    // a wrapping target admits every finger; the highest wins
    assert_eq!(s.closest_preceding_finger(0).id, 5);
}

#[test]
fn test_stabilize_adopts_closer_successor() {
    let mut s = NodeServer::new_with_bits(&mk_node(0), 6);
    s.join(mk_node(9));
    // the successor reports a predecessor between us and it
    let target = s.stabilize(Some(mk_node(4)));
    assert_eq!(s.get_successor().id, 4);
    assert_eq!(target.unwrap().id, 4);
    // a report outside (0, 4) changes nothing, but notify still goes out
    let target = s.stabilize(Some(mk_node(9)));
    assert_eq!(s.get_successor().id, 4);
    assert_eq!(target.unwrap().id, 4);
    // no report: nothing adopted
    let target = s.stabilize(None);
    assert_eq!(s.get_successor().id, 4);
    assert_eq!(target.unwrap().id, 4);
}

#[test]
fn test_stabilize_solo_closes_ring_after_notify() {
    // a solo node that has been notified by a joiner adopts it as
    // successor on its next tick, closing the two-node cycle
    let mut s = NodeServer::new_with_bits(&mk_node(0), 6);
    s.notify(mk_node(1));
    assert_eq!(s.get_predecessor().unwrap().id, 1);
    let pred = s.get_predecessor();
    let target = s.stabilize(pred);
    assert_eq!(s.get_successor().id, 1);
    assert_eq!(target.unwrap().id, 1);
}
