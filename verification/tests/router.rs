//! Routing decisions, of one node and of small meshes.

use poholos::{
    decode, encode, ExtPacket, ExtRouteAction, IgnoreReason, NodeId, Packet, RouteAction, Router,
    WireId, DEFAULT_TTL, MAX_EXT_FRAME_LEN, MAX_FRAME_LEN,
};

fn a() -> WireId {
    WireId::new(1)
}

fn b() -> WireId {
    WireId::new(2)
}

fn c() -> WireId {
    WireId::new(3)
}

#[test]
fn own_echo_is_ignored() {
    let mut router = Router::new(a());
    let pkt = Packet::hearsay(a(), 1, b"hi").unwrap();
    let frame = router.originate(&pkt);
    assert_eq!(
        router.ingest(frame.as_bytes()).unwrap(),
        RouteAction::Ignore(IgnoreReason::Own)
    );
}

#[test]
fn hearsay_delivers_then_forwards_with_decremented_ttl() {
    let mut router = Router::new(b());
    let pkt = Packet::hearsay_with(a(), 1, b"hi", 16).unwrap();
    let frame = encode(&pkt);

    let RouteAction::DeliverAndForward(delivered, relayed) =
        router.ingest(frame.as_bytes()).unwrap()
    else {
        panic!("expected DeliverAndForward");
    };
    assert_eq!(delivered.ttl(), 16, "delivered copy keeps the received TTL");
    let relayed: Packet = decode(relayed.as_bytes()).unwrap();
    assert_eq!(relayed.ttl(), 15);
}

#[test]
fn hearsay_at_ttl_one_delivers_without_forwarding() {
    let mut router = Router::new(b());
    let pkt = Packet::hearsay_with(a(), 1, b"hi", 1).unwrap();
    let frame = encode(&pkt);
    assert!(matches!(
        router.ingest(frame.as_bytes()).unwrap(),
        RouteAction::Deliver(_)
    ));
}

#[test]
fn duplicate_via_second_route_is_ignored() {
    let mut router = Router::new(b());
    // Same message, different remaining TTLs (two paths through the mesh).
    let first = encode(&Packet::hearsay_with(a(), 1, b"hi", 16).unwrap());
    let second = encode(&Packet::hearsay_with(a(), 1, b"hi", 9).unwrap());

    assert!(matches!(
        router.ingest(first.as_bytes()).unwrap(),
        RouteAction::DeliverAndForward(..)
    ));
    assert_eq!(
        router.ingest(second.as_bytes()).unwrap(),
        RouteAction::Ignore(IgnoreReason::Duplicate)
    );
}

#[test]
fn telegram_for_us_is_consumed() {
    let mut router = Router::new(b());
    let frame = encode(&Packet::telegram(a(), b(), 1, b"yo").unwrap());
    assert!(matches!(
        router.ingest(frame.as_bytes()).unwrap(),
        RouteAction::Deliver(_)
    ));
}

#[test]
fn telegram_for_other_is_forwarded_or_expires() {
    let mut router = Router::new(b());

    let live = encode(&Packet::telegram_with(a(), c(), 1, b"yo", 2).unwrap());
    assert!(matches!(
        router.ingest(live.as_bytes()).unwrap(),
        RouteAction::Forward(_)
    ));

    let dying = encode(&Packet::telegram_with(a(), c(), 2, b"yo", 1).unwrap());
    assert_eq!(
        router.ingest(dying.as_bytes()).unwrap(),
        RouteAction::Ignore(IgnoreReason::ExpiredTtl)
    );
}

/// A to D in a line: hearsay floods the chain, every node delivers exactly
/// once, the TTL decrements per hop, and the echo back along the chain is
/// suppressed as a duplicate.
#[test]
fn hearsay_floods_a_line_of_nodes() {
    let ids: Vec<_> = ["a", "b", "c", "d"]
        .iter()
        .map(|n| NodeId::new(n, 0x1111).unwrap().wire_id())
        .collect();
    let mut nodes: Vec<_> = ids.iter().map(|id| Router::new(*id)).collect();

    let pkt = Packet::hearsay(ids[0], 1, b"flood").unwrap();
    let mut frame = nodes[0].originate(&pkt);

    for hop in 1..nodes.len() {
        let action = nodes[hop].ingest(frame.as_bytes()).unwrap();
        let RouteAction::DeliverAndForward(delivered, relayed) = action else {
            panic!("node {hop} should deliver and forward, got {action:?}");
        };
        assert_eq!(delivered.payload(), b"flood");
        let decoded: Packet = decode(relayed.as_bytes()).unwrap();
        assert_eq!(
            decoded.ttl(),
            DEFAULT_TTL - u8::try_from(hop).unwrap(),
            "TTL decrements once per relay"
        );

        // The relay also reaches the node we came from. The originator
        // recognizes its own source id; everyone else dedups.
        let expected = if hop == 1 {
            IgnoreReason::Own
        } else {
            IgnoreReason::Duplicate
        };
        assert_eq!(
            nodes[hop - 1].ingest(relayed.as_bytes()).unwrap(),
            RouteAction::Ignore(expected)
        );
        frame = relayed;
    }
}

/// A telegram crosses an intermediate node that must relay without
/// delivering, and stops at its destination.
#[test]
fn telegram_relays_through_middle_node_only() {
    let alice = NodeId::new("alice", 0x3f2a).unwrap();
    let bob = NodeId::new("bob", 0x9c01).unwrap();
    let carol = NodeId::new("carol", 0x7e55).unwrap();

    let mut node_alice = Router::new(alice.wire_id());
    let mut node_bob = Router::new(bob.wire_id());
    let mut node_carol = Router::new(carol.wire_id());

    // Alice to Carol, with Bob in the middle.
    let pkt = Packet::telegram(alice.wire_id(), carol.wire_id(), 9, b"secret").unwrap();
    let frame = node_alice.originate(&pkt);

    let RouteAction::Forward(relayed) = node_bob.ingest(frame.as_bytes()).unwrap() else {
        panic!("bob must relay without delivering");
    };

    let RouteAction::Deliver(received) = node_carol.ingest(relayed.as_bytes()).unwrap() else {
        panic!("carol must consume the telegram");
    };
    assert_eq!(received.payload(), b"secret");
    assert_eq!(received.src(), alice.wire_id());

    // Carol consumed it; if the relay echoes, Bob ignores his own forwarded
    // copy as a duplicate.
    assert_eq!(
        node_bob.ingest(relayed.as_bytes()).unwrap(),
        RouteAction::Ignore(IgnoreReason::Duplicate)
    );
}

#[test]
fn undecodable_bytes_leave_no_trace() {
    let mut router = Router::new(b());
    assert_eq!(router.local(), b());
    assert!(router
        .ingest::<MAX_FRAME_LEN>(&[1, 2, 3])
        .unwrap_err()
        .is_truncated());
    assert!(router
        .ingest::<MAX_FRAME_LEN>(&[0x10; 23])
        .unwrap_err()
        .is_oversized());
    let frame = encode(&Packet::hearsay(a(), 1, b"hi").unwrap());
    assert!(matches!(
        router.ingest(frame.as_bytes()).unwrap(),
        RouteAction::DeliverAndForward(..)
    ));
}

#[test]
fn an_originated_message_sent_back_under_another_name_is_a_duplicate() {
    // A packet that claims another source but was originated here.
    let mut router = Router::new(a());
    let frame = router.originate(&Packet::hearsay(b(), 1, b"hi").unwrap());
    assert_eq!(
        router.ingest(frame.as_bytes()).unwrap(),
        RouteAction::Ignore(IgnoreReason::Duplicate)
    );
}

#[test]
fn an_expired_telegram_is_remembered_all_the_same() {
    let mut router = Router::new(b());
    let dying = encode(&Packet::telegram_with(a(), c(), 2, b"yo", 1).unwrap());
    let live = encode(&Packet::telegram_with(a(), c(), 2, b"yo", 9).unwrap());
    assert_eq!(
        router.ingest(dying.as_bytes()).unwrap(),
        RouteAction::Ignore(IgnoreReason::ExpiredTtl)
    );
    assert_eq!(
        router.ingest(live.as_bytes()).unwrap(),
        RouteAction::Ignore(IgnoreReason::Duplicate)
    );
}

#[test]
fn extended_messages_route_at_extended_capacity() {
    let mut router = Router::new(b());
    let pkt = ExtPacket::telegram(a(), c(), 1, &[5u8; 200]).unwrap();
    let frame = encode(&pkt);
    let ExtRouteAction::Forward(relayed) = router.ingest(frame.as_bytes()).unwrap() else {
        panic!("b must relay");
    };
    let decoded = decode::<MAX_EXT_FRAME_LEN>(relayed.as_bytes()).unwrap();
    assert_eq!(decoded.ttl(), DEFAULT_TTL - 1);
    assert_eq!(decoded.payload(), &[5u8; 200]);
    assert!(router
        .ingest::<MAX_FRAME_LEN>(frame.as_bytes())
        .unwrap_err()
        .is_oversized());
}
