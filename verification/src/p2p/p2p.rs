use vstd::prelude::*;

use super::codec::P2PHead;
use super::content::P2PContent;
use crate::crypto::keypair::PublicKey;
use crate::network_bridge::{route_up, BridgeAction, NetworkBridgeActor};
use crate::primitives::types::SocketAddress;
use crate::traits::message::bridge_message::{
    BridgeMessage, EventMessage, PeerJoinMessage, PeerJoinResultMessage, PeerLeaveMessage,
};

verus! {

/// What the router knows of a remote peer.
#[derive(Clone, Copy, Debug, PartialEq, Eq, Structural)]
pub enum PeerState {
    /// Nothing: the peer never joined, or it left.
    Unknown,
    /// The peer asked to join and was accepted; its answer is awaited.
    Pending,
    /// The peer is a member of the overlay.
    Live,
}

/// What happens with a remote peer.
#[derive(Clone, Copy, Debug, PartialEq, Eq, Structural)]
pub enum PeerEvent {
    /// The peer asks to join; the flag says whether local policy accepts.
    Hello(bool),
    /// The peer answers a join request; the flag says whether it accepts.
    HelloResult(bool),
    /// The peer sends an application payload.
    Event,
    /// The peer says that it leaves.
    Bye,
    /// The transport gave the peer up.
    Timeout,
}

/// What the router does about an event.
#[derive(Clone, Copy, Debug, PartialEq, Eq, Structural)]
pub enum PeerReaction {
    /// Answer the peer with a join result that carries this verdict and the
    /// known peers.
    Reply(bool),
    /// Hand the payload to the bridge.
    Forward,
    /// Tell the bridge that the peer left; the flag says whether every peer
    /// lost it.
    Leave(bool),
    /// Nothing.
    Ignore,
}

/// The state of a peer after an event, and the router's reaction. Events
/// that the current state has no use for change nothing.
pub open spec fn peer_step_spec(state: PeerState, event: PeerEvent) -> (PeerState, PeerReaction) {
    match (state, event) {
        (_, PeerEvent::Timeout) => (PeerState::Unknown, PeerReaction::Leave(true)),
        (PeerState::Unknown, PeerEvent::Hello(accept)) => (
            if accept {
                PeerState::Pending
            } else {
                PeerState::Unknown
            },
            PeerReaction::Reply(accept),
        ),
        (PeerState::Pending, PeerEvent::HelloResult(accept)) => (
            if accept {
                PeerState::Live
            } else {
                PeerState::Unknown
            },
            PeerReaction::Ignore,
        ),
        (PeerState::Live, PeerEvent::Event) => (PeerState::Live, PeerReaction::Forward),
        (PeerState::Live, PeerEvent::Bye) => (PeerState::Unknown, PeerReaction::Leave(false)),
        _ => (state, PeerReaction::Ignore),
    }
}

impl PeerState {
    /// The state of a peer that nothing is known of yet.
    pub fn initial() -> (s: PeerState)
        ensures
            s == PeerState::Unknown,
    {
        PeerState::Unknown
    }

    /// Takes one event for a peer in this state.
    pub fn step(self, event: PeerEvent) -> (r: (PeerState, PeerReaction))
        ensures
            r == peer_step_spec(self, event),
    {
        match event {
            PeerEvent::Timeout => (PeerState::Unknown, PeerReaction::Leave(true)),
            PeerEvent::Hello(accept) => match self {
                PeerState::Unknown => if accept {
                    (PeerState::Pending, PeerReaction::Reply(true))
                } else {
                    (PeerState::Unknown, PeerReaction::Reply(false))
                },
                _ => (self, PeerReaction::Ignore),
            },
            PeerEvent::HelloResult(accept) => match self {
                PeerState::Pending => if accept {
                    (PeerState::Live, PeerReaction::Ignore)
                } else {
                    (PeerState::Unknown, PeerReaction::Ignore)
                },
                _ => (self, PeerReaction::Ignore),
            },
            PeerEvent::Event => match self {
                PeerState::Live => (PeerState::Live, PeerReaction::Forward),
                _ => (self, PeerReaction::Ignore),
            },
            PeerEvent::Bye => match self {
                PeerState::Live => (PeerState::Unknown, PeerReaction::Leave(false)),
                _ => (self, PeerReaction::Ignore),
            },
        }
    }
}

/// Payloads reach the bridge only from peers that are live, and a peer that
/// the transport gave up is unknown again, whatever it was.
pub proof fn lemma_peer_step(state: PeerState, event: PeerEvent)
    ensures
        peer_step_spec(state, event).1 == PeerReaction::Forward ==> state == PeerState::Live
            && event == PeerEvent::Event,
        event == PeerEvent::Timeout ==> peer_step_spec(state, event) == (
            PeerState::Unknown,
            PeerReaction::Leave(true),
        ),
        peer_step_spec(state, event).0 == PeerState::Live ==> state == PeerState::Live || (state
            == PeerState::Pending && event == PeerEvent::HelloResult(true)),
{
}

/// The bridge message that a frame from the wire stands for: an event, a
/// join request (with the socket it came from), a join result or a leave,
/// each for the header's group and from the header's sender. Other contents
/// stand for none.
pub open spec fn lifted(head: P2PHead, content: P2PContent, socket: SocketAddress) -> Option<
    BridgeMessage,
> {
    match content {
        P2PContent::Event(bytes) => Some(
            BridgeMessage::Event(EventMessage(head.gid_spec(), head.from_spec(), bytes)),
        ),
        P2PContent::Hello(info) => Some(
            BridgeMessage::PeerJoin(
                PeerJoinMessage(head.gid_spec(), head.from_spec(), info, Some(socket)),
            ),
        ),
        P2PContent::HelloResult(ok, peers) => Some(
            BridgeMessage::PeerJoinResult(
                PeerJoinResultMessage(head.gid_spec(), head.from_spec(), ok, peers),
            ),
        ),
        P2PContent::Bye => Some(
            BridgeMessage::PeerLeave(PeerLeaveMessage(head.gid_spec(), head.from_spec(), false)),
        ),
        _ => None,
    }
}

/// What the router passes up for a frame from the wire. A frame whose
/// signature does not verify, or whose group has no handler, is dropped;
/// any other frame is lifted to its bridge message.
pub open spec fn passed_up(
    head: P2PHead,
    content: P2PContent,
    socket: SocketAddress,
    signature_ok: bool,
    registered: bool,
) -> Option<BridgeMessage> {
    if signature_ok && registered {
        lifted(head, content, socket)
    } else {
        None
    }
}

/// Decides what to pass up for a frame from the wire, given whether its
/// signature verified against the sender's key and whether its group has a
/// handler.
pub fn inbound(
    head: &P2PHead,
    content: P2PContent,
    socket: SocketAddress,
    signature_ok: bool,
    registered: bool,
) -> (r: Option<BridgeMessage>)
    ensures
        r == passed_up(*head, content, socket, signature_ok, registered),
{
    if !signature_ok || !registered {
        return None;
    }
    let gid = *head.group();
    let from = *head.from();
    match content {
        P2PContent::Event(bytes) => Some(BridgeMessage::Event(EventMessage(gid, from, bytes))),
        P2PContent::Hello(info) => Some(
            BridgeMessage::PeerJoin(PeerJoinMessage(gid, from, info, Some(socket))),
        ),
        P2PContent::HelloResult(ok, peers) => Some(
            BridgeMessage::PeerJoinResult(PeerJoinResultMessage(gid, from, ok, peers)),
        ),
        P2PContent::Bye => Some(BridgeMessage::PeerLeave(PeerLeaveMessage(gid, from, false))),
        _ => None,
    }
}

/// A frame whose signature does not verify reaches no handler, whatever it
/// holds; neither does a frame for a group without a handler.
pub proof fn lemma_unverified_dropped(
    head: P2PHead,
    content: P2PContent,
    socket: SocketAddress,
    signature_ok: bool,
    registered: bool,
)
    ensures
        !signature_ok ==> passed_up(head, content, socket, signature_ok, registered) is None,
        !registered ==> passed_up(head, content, socket, signature_ok, registered) is None,
        passed_up(head, content, socket, signature_ok, registered) matches Some(msg)
            ==> msg.group_spec() == head.gid_spec(),
{
}

/// What becomes of a frame from the wire at a bridge with the handlers
/// `registry`: it is passed up and routed, or it goes nowhere.
pub open spec fn delivered<'a, B>(
    registry: Map<Seq<u8>, B>,
    head: P2PHead,
    content: P2PContent,
    socket: SocketAddress,
    signature_ok: bool,
) -> BridgeAction<'a, B> {
    match passed_up(
        head,
        content,
        socket,
        signature_ok,
        registry.contains_key(head.gid_spec()@),
    ) {
        Some(msg) => route_up(registry, msg),
        None => BridgeAction::Nothing,
    }
}

/// Takes a frame from the wire to the handler of its group: the frame is
/// passed up if its signature verified and its group has a handler, and
/// the bridge routes what was passed up.
pub fn deliver<'a, P, R, B>(
    bridge: &'a NetworkBridgeActor<P, R, B>,
    head: &P2PHead,
    content: P2PContent,
    socket: SocketAddress,
    signature_ok: bool,
) -> (action: BridgeAction<'a, B>)
    ensures
        action == delivered(bridge.registry(), *head, content, socket, signature_ok),
{
    let registered = bridge.is_registered(head.group());
    match inbound(head, content, socket, signature_ok, registered) {
        Some(msg) => bridge.receive(msg),
        None => BridgeAction::Nothing,
    }
}

/// A frame reaches a handler only if its signature verified, and then only
/// the handler registered for the frame's group, with the message that the
/// frame stands for. A frame never causes a message to the planes.
pub proof fn lemma_delivered<B>(
    registry: Map<Seq<u8>, B>,
    head: P2PHead,
    content: P2PContent,
    socket: SocketAddress,
    signature_ok: bool,
)
    ensures
        !signature_ok ==> delivered(registry, head, content, socket, signature_ok)
            == BridgeAction::<B>::Nothing,
        match delivered(registry, head, content, socket, signature_ok) {
            BridgeAction::Bridge(handler, msg) => {
                &&& signature_ok
                &&& registry.contains_key(head.gid_spec()@)
                &&& *handler == registry[head.gid_spec()@]
                &&& lifted(head, content, socket) == Some(msg)
            },
            BridgeAction::Nothing => true,
            _ => false,
        },
{
}

/// The content that carries a bridge message to a peer: an event's bytes,
/// a join request's information, a join result's verdict and peers, or a
/// leave. Only overlay traffic has one.
pub open spec fn content_of(msg: BridgeMessage) -> Option<P2PContent> {
    match msg {
        BridgeMessage::Event(m) => Some(P2PContent::Event(m.2)),
        BridgeMessage::PeerJoin(m) => Some(P2PContent::Hello(m.2)),
        BridgeMessage::PeerJoinResult(m) => Some(P2PContent::HelloResult(m.2, m.3)),
        BridgeMessage::PeerLeave(m) => Some(P2PContent::Bye),
        _ => None,
    }
}

/// The peer that overlay traffic is for or from; RPC traffic has none.
pub open spec fn peer_of(msg: BridgeMessage) -> Option<PublicKey> {
    match msg {
        BridgeMessage::Event(m) => Some(m.1),
        BridgeMessage::PeerJoin(m) => Some(m.1),
        BridgeMessage::PeerJoinResult(m) => Some(m.1),
        BridgeMessage::PeerLeave(m) => Some(m.1),
        _ => None,
    }
}

/// Builds the frame for a message that the bridge sends to a peer: a header
/// of version `ver` from `local` to the message's peer, for the message's
/// group, not yet sized or signed, and the content for the message's kind.
/// RPC traffic gets no frame.
pub fn outbound(msg: BridgeMessage, ver: u16, local: PublicKey) -> (r: Option<
    (P2PHead, P2PContent),
>)
    ensures
        r.is_some() == peer_of(msg).is_some(),
        r.is_some() ==> {
            let head = r.unwrap().0;
            &&& head@.ver == ver
            &&& head@.len == 0
            &&& head.gid_spec() == msg.group_spec()
            &&& head.from_spec() == local
            &&& head.to_spec() == peer_of(msg).unwrap()
            &&& head@.sign == Seq::new(64, |i: int| 0u8)
            &&& Some(r.unwrap().1) == content_of(msg)
        },
{
    match msg {
        BridgeMessage::Event(m) => Some((P2PHead::new(ver, m.0, local, m.1), P2PContent::Event(m.2))),
        BridgeMessage::PeerJoin(m) => Some(
            (P2PHead::new(ver, m.0, local, m.1), P2PContent::Hello(m.2)),
        ),
        BridgeMessage::PeerJoinResult(m) => Some(
            (P2PHead::new(ver, m.0, local, m.1), P2PContent::HelloResult(m.2, m.3)),
        ),
        BridgeMessage::PeerLeave(m) => Some((P2PHead::new(ver, m.0, local, m.1), P2PContent::Bye)),
        _ => None,
    }
}

} // verus!
