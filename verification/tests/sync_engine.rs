use aether::sync::crdt::uuid_stub::Uuid;
use aether::sync::crdt::{LwwRegister, ObjectId, OrSet};
use aether::sync::hlc::{Hlc, HybridLogicalClock};
use aether::sync::network::{InMemoryTransport, Transport};
use aether::sync::protocol::{CrdtOp, SyncMessage};
use aether::sync::sharding::CellId;

#[test]
fn lww_register_prefers_later_timestamp() {
    let mut a = LwwRegister::new((0.0, 0.0, 0.0), Hlc::new(1, 0, 1));
    let b = LwwRegister::new((1.0, 1.0, 1.0), Hlc::new(2, 0, 1));
    a.merge(b.clone());
    assert_eq!(a.value, b.value);
}

#[test]
fn lww_register_ignores_stale_write() {
    let mut a = LwwRegister::new((5.0, 5.0, 5.0), Hlc::new(10, 0, 1));
    let stale = LwwRegister::new((0.0, 0.0, 0.0), Hlc::new(3, 0, 1));
    a.merge(stale);
    assert_eq!(a.value, (5.0, 5.0, 5.0));
}

#[test]
fn or_set_add_remove_converges() {
    let mut a = OrSet::new();
    a.add("fragile", 1);
    let mut b = a.clone();
    b.remove(&"fragile");
    a.merge(b);
    assert!(!a.contains(&"fragile"));
}

#[test]
fn or_set_concurrent_add_after_remove_survives() {
    // A new add (new tag) after a remove of an old tag must survive the
    // merge: this is what distinguishes an OR-Set from a last-write-wins
    // boolean.
    let mut replica_a = OrSet::new();
    replica_a.add("beacon", 1);

    let mut replica_b = replica_a.clone();
    replica_b.remove(&"beacon"); // removes tag 1

    replica_a.add("beacon", 2); // concurrent re-add with a new tag

    replica_a.merge(replica_b);
    assert!(replica_a.contains(&"beacon"));
}

#[test]
fn local_ticks_are_strictly_increasing() {
    let mut clock = HybridLogicalClock::new(1);
    let a = clock.tick(100);
    let b = clock.tick(100); // same physical instant again
    assert!(b > a, "second tick at the same physical time must still advance");
}

#[test]
fn skewed_remote_clock_does_not_go_backwards_in_time() {
    let mut node1 = HybridLogicalClock::new(1);
    let stamp_from_node1 = node1.tick(1_000_000);

    let mut node2 = HybridLogicalClock::new(2);
    let node2_local_before = node2.tick(100_000);

    let merged = node2.update(&stamp_from_node1, 100_000);
    assert!(
        merged > stamp_from_node1,
        "merged stamp must be causally after the received remote stamp"
    );
    assert!(
        merged > node2_local_before,
        "merged stamp must be causally after this node's own prior stamp"
    );
}

#[test]
fn a_naive_wall_clock_timestamp_would_have_gotten_this_wrong() {
    let node_a_naive_wall_clock_ns: u64 = 500_000; // A's clock is behind
    let node_b_naive_wall_clock_ns: u64 = 900_000; // B's clock is ahead
    assert!(
        node_a_naive_wall_clock_ns < node_b_naive_wall_clock_ns,
        "setup: A's naive timestamp looks earlier than B's, despite A's write happening after"
    );

    let mut node_b = HybridLogicalClock::new(2);
    let b_stamp = node_b.tick(node_b_naive_wall_clock_ns);

    let mut node_a = HybridLogicalClock::new(1);
    let a_stamp_after_observing_b = node_a.update(&b_stamp, node_a_naive_wall_clock_ns);

    assert!(
        a_stamp_after_observing_b > b_stamp,
        "HLC correctly orders A's causally-later write after B's, despite A's skewed clock"
    );
}

#[test]
fn tick_and_update_give_exact_stamps() {
    let mut clock = HybridLogicalClock::new(7);
    assert_eq!(clock.tick(50), Hlc::new(50, 0, 7));
    assert_eq!(clock.tick(50), Hlc::new(50, 1, 7));
    assert_eq!(clock.tick(40), Hlc::new(50, 2, 7)); // physical time went back
    assert_eq!(clock.tick(60), Hlc::new(60, 0, 7));
    // Received stamp ahead: continue its logical counter.
    assert_eq!(clock.update(&Hlc::new(80, 4, 1), 70), Hlc::new(80, 5, 7));
    // Same physical time on both sides: past the larger logical counter.
    assert_eq!(clock.update(&Hlc::new(80, 9, 1), 10), Hlc::new(80, 10, 7));
    assert_eq!(clock.update(&Hlc::new(80, 2, 1), 10), Hlc::new(80, 11, 7));
    // Local physical time ahead of both.
    assert_eq!(clock.update(&Hlc::new(90, 3, 1), 100), Hlc::new(100, 0, 7));
}

#[test]
fn hlc_order_breaks_ties_by_node() {
    assert!(Hlc::new(5, 1, 2) > Hlc::new(5, 1, 1));
    assert!(Hlc::new(5, 2, 0) > Hlc::new(5, 1, 9));
    assert!(Hlc::new(6, 0, 0) > Hlc::new(5, 9, 9));
    assert!(Hlc::new(5, 1, 2).is_after(&Hlc::new(5, 1, 1)));
    assert!(!Hlc::new(5, 1, 1).is_after(&Hlc::new(5, 1, 1)));
}

#[test]
fn lww_merge_converges_in_either_order() {
    let base = LwwRegister::new("origin", Hlc::new(0, 0, 1));
    let from_a = LwwRegister::new("moved by a", Hlc::new(1, 0, 1));
    let from_b = LwwRegister::new("moved by b", Hlc::new(2, 0, 2));
    let mut on_a = base.clone();
    on_a.merge(from_a.clone());
    on_a.merge(from_b.clone());
    let mut on_b = base.clone();
    on_b.merge(from_b.clone());
    on_b.merge(from_a.clone());
    assert_eq!(on_a.value, "moved by b");
    assert_eq!(on_b.value, "moved by b");
    assert_eq!(on_a.stamp, on_b.stamp);
    // Equal stamps keep the current write.
    let mut same = LwwRegister::new(1u8, Hlc::new(3, 3, 3));
    same.merge(LwwRegister::new(2u8, Hlc::new(3, 3, 3)));
    assert_eq!(same.value, 1);
}

#[test]
fn or_set_merge_is_order_independent() {
    let mut a: OrSet<u64> = OrSet::new();
    let mut b: OrSet<u64> = OrSet::new();
    a.add(1, 10);
    a.add(2, 20);
    b.add(2, 21);
    b.remove(&2);
    b.add(3, 30);
    let mut ab = a.clone();
    ab.merge(b.clone());
    let mut ba = b.clone();
    ba.merge(a.clone());
    for e in [1u64, 2, 3, 4] {
        assert_eq!(ab.contains(&e), ba.contains(&e));
    }
    assert!(ab.contains(&1));
    assert!(ab.contains(&2)); // tag 20 was never observed by b's remove
    assert!(ab.contains(&3));
    assert!(!ab.contains(&4));
    let mut twice = ab.clone();
    twice.merge(ab.clone());
    assert!(twice.contains(&2));
}

#[test]
fn or_set_remove_only_covers_observed_tags() {
    let mut s: OrSet<u64> = OrSet::new();
    assert!(!s.contains(&5));
    s.remove(&5); // never added: nothing to observe
    s.add(5, 1);
    assert!(s.contains(&5));
    s.remove(&5);
    assert!(!s.contains(&5));
    s.add(5, 1); // the same tag again stays removed
    assert!(!s.contains(&5));
    s.add(5, 2);
    assert!(s.contains(&5));
    s.remove(&5);
    assert!(!s.contains(&5));
}

#[test]
fn cell_ids_bucket_coordinates() {
    let c = CellId::from_lat_lon(1_234_567, -7_654_321, 3);
    assert_eq!(c, CellId { token: 5_304_284_602_906, level: 3 });
    let top = CellId::from_lat_lon(-1_500_000, 5_999_999, 0);
    assert_eq!(top.token, 18_446_744_069_414_584_325);
    assert_eq!(top.level, 0);
    let fine = CellId::from_lat_lon(3, 4, 9);
    assert_eq!(fine.token, (3u64 << 32) ^ 4);
    let extreme = CellId::from_lat_lon(i64::MIN, i64::MAX, 6);
    assert_eq!(extreme.token, ((i64::MIN as u64) << 32) ^ ((i64::MAX as u64) & 0xFFFF_FFFF));
}

#[test]
fn cell_parent_moves_one_level_up() {
    let c = CellId { token: 0x1234, level: 2 };
    assert_eq!(c.parent(), Some(CellId { token: 0x123, level: 1 }));
    assert_eq!(CellId { token: 7, level: 0 }.parent(), None);
}

#[test]
fn in_memory_transport_drains_in_delivery_order() {
    let mut t = InMemoryTransport::new(3);
    assert_eq!(t.local_node, 3);
    assert!(t.poll().is_empty());
    t.deliver(1, SyncMessage::Heartbeat { sent_at_ns: 5 });
    t.deliver(2, SyncMessage::Publish {
        object: ObjectId(Uuid(9)),
        cell: CellId { token: 1, level: 1 },
        operation: CrdtOp::TagAdd { tag: "red".to_string(), op_id: 4 },
    });
    assert!(t.send(1, SyncMessage::Hello { node_id: 3, protocol_version: 1 }).is_ok());
    let got = t.poll();
    assert_eq!(got.len(), 2);
    assert_eq!(got[0].0, 1);
    assert!(matches!(got[0].1, SyncMessage::Heartbeat { sent_at_ns: 5 }));
    assert_eq!(got[1].0, 2);
    assert!(matches!(got[1].1, SyncMessage::Publish { object: ObjectId(Uuid(9)), .. }));
    assert!(t.poll().is_empty());
}
