use teatree::crypto::hash::H256;
use teatree::crypto::keypair::PublicKey;
use teatree::network_bridge::{BridgeAction, NetworkBridgeActor};
use teatree::p2p::codec::{decode_datagram, encode_frame, signing_payload, P2PHead};
use teatree::p2p::content::P2PContent;
use teatree::p2p::p2p::{deliver, inbound, outbound, PeerEvent, PeerReaction, PeerState};
use teatree::primitives::types::SocketAddress;
use teatree::traits::message::bridge_message::{
    BridgeAddrMessage, BridgeMessage, EventMessage, LocalResponseMessage, PeerJoinMessage,
    PeerJoinResultMessage, PeerLeaveMessage,
};

fn gid(b: u8) -> H256 {
    H256::from_bytes(&[b; 32]).unwrap()
}

fn key(b: u8) -> PublicKey {
    PublicKey::from_bytes(&[b; 32]).unwrap()
}

fn sock(port: u16) -> SocketAddress {
    SocketAddress::V4([127, 0, 0, 1], port)
}

/// Stands in for the serializer of event payloads.
fn write_event(bytes: &Vec<u8>) -> Vec<u8> {
    bincode::serialize(bytes).unwrap()
}

fn read_event(body: &[u8]) -> Option<P2PContent> {
    bincode::deserialize::<Vec<u8>>(body).ok().map(P2PContent::Event)
}

#[test]
fn peer_states_follow_the_table() {
    assert!(PeerState::initial() == PeerState::Unknown);
    assert!(
        PeerState::Unknown.step(PeerEvent::Hello(true))
            == (PeerState::Pending, PeerReaction::Reply(true))
    );
    assert!(
        PeerState::Unknown.step(PeerEvent::Hello(false))
            == (PeerState::Unknown, PeerReaction::Reply(false))
    );
    assert!(
        PeerState::Pending.step(PeerEvent::HelloResult(true))
            == (PeerState::Live, PeerReaction::Ignore)
    );
    assert!(
        PeerState::Pending.step(PeerEvent::HelloResult(false))
            == (PeerState::Unknown, PeerReaction::Ignore)
    );
    assert!(PeerState::Live.step(PeerEvent::Event) == (PeerState::Live, PeerReaction::Forward));
    assert!(
        PeerState::Live.step(PeerEvent::Bye) == (PeerState::Unknown, PeerReaction::Leave(false))
    );
    for s in [PeerState::Unknown, PeerState::Pending, PeerState::Live] {
        assert!(s.step(PeerEvent::Timeout) == (PeerState::Unknown, PeerReaction::Leave(true)));
    }
}

#[test]
fn peer_states_ignore_what_they_have_no_use_for() {
    let cases = [
        (PeerState::Unknown, PeerEvent::Event),
        (PeerState::Unknown, PeerEvent::Bye),
        (PeerState::Unknown, PeerEvent::HelloResult(true)),
        (PeerState::Pending, PeerEvent::Event),
        (PeerState::Pending, PeerEvent::Hello(true)),
        (PeerState::Pending, PeerEvent::Bye),
        (PeerState::Live, PeerEvent::Hello(true)),
        (PeerState::Live, PeerEvent::HelloResult(false)),
    ];
    for (state, event) in cases {
        assert!(state.step(event) == (state, PeerReaction::Ignore));
    }
}

#[test]
fn inbound_lifts_each_content() {
    let head = P2PHead::new(0, gid(1), key(2), key(3));
    match inbound(&head, P2PContent::Event(vec![1, 2]), sock(1), true, true) {
        Some(BridgeMessage::Event(EventMessage(g, p, b))) => {
            assert!(g == gid(1) && p == key(2));
            assert_eq!(b, vec![1, 2]);
        }
        _ => panic!("event"),
    }
    match inbound(&head, P2PContent::Hello(vec![7]), sock(1), true, true) {
        Some(BridgeMessage::PeerJoin(PeerJoinMessage(g, p, info, from))) => {
            assert!(g == gid(1) && p == key(2));
            assert_eq!(info, vec![7]);
            assert_eq!(from, Some(sock(1)));
        }
        _ => panic!("hello"),
    }
    match inbound(&head, P2PContent::HelloResult(true, vec![key(9)]), sock(1), true, true) {
        Some(BridgeMessage::PeerJoinResult(PeerJoinResultMessage(g, p, ok, peers))) => {
            assert!(g == gid(1) && p == key(2) && ok);
            assert!(peers == vec![key(9)]);
        }
        _ => panic!("hello result"),
    }
    match inbound(&head, P2PContent::Bye, sock(1), true, true) {
        Some(BridgeMessage::PeerLeave(PeerLeaveMessage(g, p, all))) => {
            assert!(g == gid(1) && p == key(2) && !all);
        }
        _ => panic!("bye"),
    }
    assert!(inbound(&head, P2PContent::Ping, sock(1), true, true).is_none());
    assert!(inbound(&head, P2PContent::Pong, sock(1), true, true).is_none());
    assert!(inbound(&head, P2PContent::Invalid, sock(1), true, true).is_none());
}

#[test]
fn inbound_drops_unverified_and_unregistered_frames() {
    let head = P2PHead::new(0, gid(1), key(2), key(3));
    let event = || P2PContent::Event(vec![1]);
    assert!(inbound(&head, event(), sock(1), false, true).is_none());
    assert!(inbound(&head, event(), sock(1), true, false).is_none());
    assert!(inbound(&head, event(), sock(1), false, false).is_none());
    assert!(inbound(&head, event(), sock(1), true, true).is_some());
}

#[test]
fn outbound_builds_a_frame_for_overlay_traffic_only() {
    let local = key(0xaa);
    let (h, c) =
        outbound(BridgeMessage::Event(EventMessage(gid(1), key(2), vec![5])), 3, local).unwrap();
    assert_eq!(h.version(), 3);
    assert_eq!(h.len(), 0);
    assert!(*h.group() == gid(1));
    assert!(*h.from() == local);
    assert!(*h.to() == key(2));
    assert!(matches!(c, P2PContent::Event(b) if b == vec![5]));
    let (_, c) = outbound(
        BridgeMessage::PeerJoin(PeerJoinMessage(gid(1), key(2), vec![8], None)),
        0,
        local,
    )
    .unwrap();
    assert!(matches!(c, P2PContent::Hello(b) if b == vec![8]));
    let (_, c) = outbound(
        BridgeMessage::PeerJoinResult(PeerJoinResultMessage(gid(1), key(2), false, vec![key(4)])),
        0,
        local,
    )
    .unwrap();
    assert!(matches!(c, P2PContent::HelloResult(false, p) if p == vec![key(4)]));
    let (_, c) =
        outbound(BridgeMessage::PeerLeave(PeerLeaveMessage(gid(1), key(2), true)), 0, local)
            .unwrap();
    assert!(matches!(c, P2PContent::Bye));
    assert!(outbound(
        BridgeMessage::LocalResponse(LocalResponseMessage(gid(1), 1, None)),
        0,
        local
    )
    .is_none());
}

#[test]
fn loopback_event() {
    let g = gid(0x01);
    let (pk_a, pk_b) = (key(0xa1), key(0xb1));
    let mut a: NetworkBridgeActor<(), (), &str> = NetworkBridgeActor::load((), ());
    let mut b: NetworkBridgeActor<(), (), &str> = NetworkBridgeActor::load((), ());
    a.register(BridgeAddrMessage(g, "handler of A"));
    b.register(BridgeAddrMessage(g, "handler of B"));

    // A's handler sends the event; the bridge hands it to the P2P plane
    let sent = BridgeMessage::Event(EventMessage(g, pk_b, vec![0xde, 0xad, 0xbe, 0xef]));
    let down = match a.handle(sent) {
        BridgeAction::P2P(m) => m,
        _ => panic!("not for the P2P plane"),
    };
    let (mut head, content) = outbound(down, 0, pk_a).unwrap();
    let body = match content {
        P2PContent::Event(bytes) => write_event(&bytes),
        _ => panic!("not an event"),
    };
    let datagram = encode_frame(&mut head, &body);

    // B decodes, verifies and passes the frame up
    let (h, raw) = decode_datagram(&datagram).unwrap();
    let content = P2PContent::or_invalid(read_event(&raw));
    let mut signed = h;
    let verified = signing_payload(&mut signed, &raw) == signing_payload(&mut head, &body);
    let registered = b.is_registered(h.group());
    let up = inbound(&h, content, sock(9001), verified, registered).unwrap();
    match b.receive(up) {
        BridgeAction::Bridge(handler, BridgeMessage::Event(EventMessage(gg, from, bytes))) => {
            assert_eq!(*handler, "handler of B");
            assert!(gg == g);
            assert!(from == pk_a);
            assert_eq!(bytes, vec![0xde, 0xad, 0xbe, 0xef]);
        }
        _ => panic!("B's handler did not get the event"),
    }
}

#[test]
fn tampered_frame_reaches_no_handler() {
    let g = gid(1);
    let mut head = P2PHead::new(0, g, key(2), key(3));
    let body = write_event(&vec![1, 2, 3]);
    let signed = signing_payload(&mut head, &body);
    let mut datagram = encode_frame(&mut head, &body);
    let last = datagram.len() - 1;
    datagram[last] ^= 1;
    let (mut h, raw) = decode_datagram(&datagram).unwrap();
    let verified = signing_payload(&mut h, &raw) == signed;
    assert!(!verified);
    let content = P2PContent::or_invalid(read_event(&raw));
    assert!(inbound(&h, content, sock(1), verified, true).is_none());
}

#[test]
fn peer_join_and_leave_arrive_in_order() {
    let g = gid(3);
    let (pk_a, pk_c) = (key(0xa1), key(0xc1));
    let mut b: NetworkBridgeActor<(), (), u8> = NetworkBridgeActor::load((), ());
    b.register(BridgeAddrMessage(g, 1));
    let head = P2PHead::new(0, g, pk_a, key(0xb1));
    let frames = vec![
        P2PContent::Hello(vec![0x10]),
        P2PContent::HelloResult(true, vec![pk_c]),
        P2PContent::Bye,
    ];
    let mut seen = Vec::new();
    for content in frames {
        let up = inbound(&head, content, sock(9001), true, b.is_registered(&g)).unwrap();
        match b.receive(up) {
            BridgeAction::Bridge(_, m) => seen.push(m),
            _ => panic!("not delivered"),
        }
    }
    assert_eq!(seen.len(), 3);
    assert!(matches!(&seen[0], BridgeMessage::PeerJoin(m)
        if m.0 == g && m.1 == pk_a && m.2 == vec![0x10] && m.3 == Some(sock(9001))));
    assert!(matches!(&seen[1], BridgeMessage::PeerJoinResult(m)
        if m.0 == g && m.1 == pk_a && m.2 && m.3 == vec![pk_c]));
    assert!(matches!(&seen[2], BridgeMessage::PeerLeave(m)
        if m.0 == g && m.1 == pk_a && !m.2));
}

#[test]
fn deliver_hands_a_verified_frame_to_the_group_handler() {
    let g = gid(4);
    let mut b: NetworkBridgeActor<(), (), u8> = NetworkBridgeActor::load((), ());
    b.register(BridgeAddrMessage(g, 9));
    let head = P2PHead::new(0, g, key(1), key(2));
    match deliver(&b, &head, P2PContent::Event(vec![1, 2]), sock(1), true) {
        BridgeAction::Bridge(h, BridgeMessage::Event(m)) => {
            assert_eq!(*h, 9);
            assert!(m.0 == g && m.1 == key(1));
            assert_eq!(m.2, vec![1, 2]);
        }
        _ => panic!("not delivered"),
    }
    assert!(matches!(
        deliver(&b, &head, P2PContent::Event(vec![1, 2]), sock(1), false),
        BridgeAction::Nothing
    ));
    assert!(matches!(deliver(&b, &head, P2PContent::Ping, sock(1), true), BridgeAction::Nothing));
    let other = P2PHead::new(0, gid(5), key(1), key(2));
    assert!(matches!(
        deliver(&b, &other, P2PContent::Event(vec![1]), sock(1), true),
        BridgeAction::Nothing
    ));
}
