use voyeurs::room::Shared;

#[test]
fn new_room_is_empty_and_idle() {
    let room = Shared::new();
    assert!(room.peers.is_empty());
    assert!(!room.ignore_next);
    assert!(!room.is_ready);
    assert!(room.all_ready()); // nobody to wait for
}

#[test]
fn peers_join_and_leave() {
    let mut room = Shared::new();
    room.add_peer(1);
    room.add_peer(2);
    assert!(room.has_peer(1));
    assert!(room.has_peer(2));
    assert!(!room.has_peer(3));

    let peer = room.remove_peer(1).unwrap();
    assert_eq!(peer.username, "");
    assert!(!peer.ready);
    assert!(!room.has_peer(1));
    assert!(room.has_peer(2));
    assert!(room.remove_peer(1).is_none());
}

#[test]
fn rejoining_resets_the_entry() {
    let mut room = Shared::new();
    room.add_peer(5);
    room.set_peer_username(5, "ada".to_string());
    room.set_peer_ready(5, true);
    room.add_peer(5);
    let peer = room.remove_peer(5).unwrap();
    assert_eq!(peer.username, "");
    assert!(!peer.ready);
}

#[test]
fn readiness_is_unanimous() {
    let mut room = Shared::new();
    room.add_peer(1);
    room.add_peer(2);
    room.add_peer(3);
    assert!(!room.all_ready());
    room.set_peer_ready(1, true);
    room.set_peer_ready(2, true);
    assert!(!room.all_ready());
    room.set_peer_ready(3, true);
    assert!(room.all_ready());
    room.set_peer_ready(2, false);
    assert!(!room.all_ready());
}

#[test]
fn usernames_are_stored_per_peer() {
    let mut room = Shared::new();
    room.add_peer(1);
    room.add_peer(2);
    room.set_peer_username(1, "ada".to_string());
    room.set_peer_username(2, "bob".to_string());
    let bob = room.remove_peer(2).unwrap();
    assert_eq!(bob.username, "bob");
    let ada = room.remove_peer(1).unwrap();
    assert_eq!(ada.username, "ada");
}

#[test]
fn latency_fifo_is_bounded_and_newest_first() {
    let mut room = Shared::new();
    room.add_peer(1);
    for sample in 0..12u64 {
        room.record_latency(1, sample);
    }
    let peer = room.remove_peer(1).unwrap();
    // capacity 10; the two oldest samples (0 and 1) fell out the back
    assert_eq!(peer.latency.len(), 10);
    assert_eq!(peer.latency, (2..12u64).rev().collect::<std::collections::VecDeque<u64>>());
}

#[test]
fn broadcasts_visit_peers_in_arrival_order() {
    let mut room = Shared::new();
    room.add_peer(30);
    room.add_peer(10);
    room.add_peer(20);
    assert_eq!(room.broadcast_targets(), vec![30, 10, 20]);
}

#[test]
fn excluding_broadcast_skips_exactly_the_sender() {
    let mut room = Shared::new();
    room.add_peer(1);
    room.add_peer(2);
    room.add_peer(3);
    assert_eq!(room.broadcast_targets_excluding(2), vec![1, 3]);
    assert_eq!(room.broadcast_targets_excluding(9), vec![1, 2, 3]);
    room.remove_peer(1);
    assert_eq!(room.broadcast_targets_excluding(2), vec![3]);
}
