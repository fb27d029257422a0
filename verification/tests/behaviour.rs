use blockchain::network::behaviour::{topic, LocalExpiry, Notice, PeerBehaviour, PeerId};
use blockchain::network::message::{DecodeError, Message};

fn peer(key: u64) -> PeerId {
    PeerId { key }
}

#[test]
fn a_new_behaviour_is_empty() {
    let mut b = PeerBehaviour::new();
    assert_eq!(b.peer_count(), 0);
    assert_eq!(b.pending_events(), 0);
    assert_eq!(b.poll(), None);
    assert!(b.take_outbound().is_empty());
}

#[test]
fn the_topic_is_blocks() {
    assert_eq!(topic(), "blocks");
}

#[test]
fn dht_discovery_adds_the_peer_once() {
    let mut b = PeerBehaviour::new();
    b.on_dht_discovered(peer(1));
    b.on_dht_discovered(peer(1));
    b.on_dht_discovered(peer(2));
    assert!(b.has_peer(&peer(1)));
    assert!(b.has_peer(&peer(2)));
    assert!(!b.has_peer(&peer(3)));
    assert_eq!(b.peer_count(), 2);
}

#[test]
fn local_discovery_adds_every_listed_peer() {
    let mut b = PeerBehaviour::new();
    b.on_dht_discovered(peer(1));
    b.on_local_discovered(&vec![peer(1), peer(4), peer(5), peer(4)]);
    assert_eq!(b.peer_count(), 3);
    assert!(b.has_peer(&peer(1)) && b.has_peer(&peer(4)) && b.has_peer(&peer(5)));
}

#[test]
fn expiry_removes_a_peer_only_when_no_record_is_left() {
    let mut b = PeerBehaviour::new();
    b.on_local_discovered(&vec![peer(1), peer(2)]);
    b.on_local_expired(&vec![
        LocalExpiry { peer: peer(1), still_held: true },
        LocalExpiry { peer: peer(2), still_held: false },
    ]);
    assert!(b.has_peer(&peer(1)));
    assert!(!b.has_peer(&peer(2)));
    assert_eq!(b.peer_count(), 1);
}

#[test]
fn expiry_of_an_unrelated_peer_spares_a_dht_peer() {
    let mut b = PeerBehaviour::new();
    b.on_dht_discovered(peer(10));
    b.on_local_discovered(&vec![peer(20)]);
    b.on_local_expired(&vec![LocalExpiry { peer: peer(20), still_held: false }]);
    assert!(b.has_peer(&peer(10)));
    assert!(!b.has_peer(&peer(20)));
    b.on_local_expired(&vec![LocalExpiry { peer: peer(30), still_held: false }]);
    assert!(b.has_peer(&peer(10)));
    assert_eq!(b.peer_count(), 1);
}

#[test]
fn expiry_does_not_ask_the_dht() {
    let mut b = PeerBehaviour::new();
    b.on_dht_discovered(peer(10));
    b.on_local_discovered(&vec![peer(10)]);
    b.on_local_expired(&vec![LocalExpiry { peer: peer(10), still_held: false }]);
    assert!(!b.has_peer(&peer(10)));
}

#[test]
fn add_and_remove_are_idempotent() {
    let mut b = PeerBehaviour::new();
    b.add_node_to_partial_view(peer(1));
    b.add_node_to_partial_view(peer(1));
    assert_eq!(b.peer_count(), 1);
    b.remove_node_from_partial_view(&peer(1));
    b.remove_node_from_partial_view(&peer(1));
    assert_eq!(b.peer_count(), 0);
    assert!(!b.has_peer(&peer(1)));
}

#[test]
fn events_come_out_in_arrival_order() {
    let mut b = PeerBehaviour::new();
    let first = Message::Depth { depth: 1 };
    let second = Message::Block { depth: 2, block: vec![9, 9] };
    let third = Message::Depth { depth: 3 };
    assert_eq!(b.on_gossip(peer(5), &first.encode()), Ok(()));
    assert_eq!(b.on_gossip(peer(6), &second.encode()), Ok(()));
    assert_eq!(b.on_gossip(peer(5), &third.encode()), Ok(()));
    assert_eq!(b.pending_events(), 3);
    assert_eq!(b.poll(), Some((peer(5), first)));
    assert_eq!(b.poll(), Some((peer(6), second)));
    assert_eq!(b.poll(), Some((peer(5), third)));
    assert_eq!(b.poll(), None);
    assert_eq!(b.poll(), None);
}

#[test]
fn a_malformed_payload_is_dropped_with_its_reason() {
    let mut b = PeerBehaviour::new();
    assert_eq!(b.on_gossip(peer(1), &[]), Err(DecodeError::Empty));
    assert_eq!(b.on_gossip(peer(1), &[7, 1]), Err(DecodeError::UnknownTag(7)));
    assert_eq!(b.on_gossip(peer(1), &[1, 1]), Err(DecodeError::Truncated));
    assert_eq!(b.on_gossip(peer(1), &[0, 0, 0, 0, 0, 0, 0, 0, 0, 1]), Err(DecodeError::TrailingBytes));
    assert_eq!(b.pending_events(), 0);
    assert_eq!(b.on_gossip(peer(1), &Message::Depth { depth: 4 }.encode()), Ok(()));
    assert_eq!(b.poll(), Some((peer(1), Message::Depth { depth: 4 })));
}

#[test]
fn send_and_broadcast_both_publish_the_encoding() {
    let mut b = PeerBehaviour::new();
    let m1 = Message::Depth { depth: 12 };
    let m2 = Message::Block { depth: 13, block: vec![1, 2, 3] };
    b.broadcast(&m1);
    b.send(&peer(3), &m2);
    let out = b.take_outbound();
    assert_eq!(out, vec![m1.encode(), m2.encode()]);
    assert_eq!(out[0], vec![0, 12, 0, 0, 0, 0, 0, 0, 0]);
    assert!(b.take_outbound().is_empty());
}

#[test]
fn inject_dispatches_by_sub_protocol() {
    let mut b = PeerBehaviour::new();
    assert_eq!(b.inject(&Notice::DhtDiscovered { peer: peer(1) }), Ok(()));
    assert_eq!(b.inject(&Notice::LocalDiscovered { peers: vec![peer(2), peer(3)] }), Ok(()));
    assert_eq!(
        b.inject(&Notice::LocalExpired { records: vec![LocalExpiry { peer: peer(3), still_held: false }] }),
        Ok(())
    );
    assert_eq!(
        b.inject(&Notice::Gossip { source: peer(2), data: Message::Depth { depth: 8 }.encode() }),
        Ok(())
    );
    assert_eq!(b.inject(&Notice::Gossip { source: peer(2), data: vec![9] }), Err(DecodeError::UnknownTag(9)));
    assert!(b.has_peer(&peer(1)) && b.has_peer(&peer(2)) && !b.has_peer(&peer(3)));
    assert_eq!(b.poll(), Some((peer(2), Message::Depth { depth: 8 })));
    assert_eq!(b.poll(), None);
}

#[test]
fn drain_takes_every_notice_in_order_and_lists_what_it_dropped() {
    let mut b = PeerBehaviour::new();
    let notices = vec![
        Notice::Gossip { source: peer(1), data: Message::Depth { depth: 1 }.encode() },
        Notice::LocalDiscovered { peers: vec![peer(7), peer(8)] },
        Notice::Gossip { source: peer(2), data: vec![] },
        Notice::DhtDiscovered { peer: peer(9) },
        Notice::Gossip { source: peer(3), data: Message::Block { depth: 2, block: vec![5] }.encode() },
        Notice::LocalExpired {
            records: vec![LocalExpiry { peer: peer(7), still_held: false }, LocalExpiry { peer: peer(8), still_held: true }],
        },
        Notice::Gossip { source: peer(4), data: vec![0, 1] },
    ];
    assert_eq!(b.drain(&notices), vec![DecodeError::Empty, DecodeError::Truncated]);
    assert!(!b.has_peer(&peer(7)) && b.has_peer(&peer(8)) && b.has_peer(&peer(9)));
    assert_eq!(b.peer_count(), 2);
    assert_eq!(b.poll(), Some((peer(1), Message::Depth { depth: 1 })));
    assert_eq!(b.poll(), Some((peer(3), Message::Block { depth: 2, block: vec![5] })));
    assert_eq!(b.poll(), None);
}

#[test]
fn drain_of_nothing_changes_nothing() {
    let mut b = PeerBehaviour::new();
    b.on_dht_discovered(peer(1));
    assert!(b.drain(&vec![]).is_empty());
    assert_eq!(b.peer_count(), 1);
    assert_eq!(b.pending_events(), 0);
}
