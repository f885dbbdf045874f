use vstd::prelude::*;

use crate::primitives::types::{
    BlockByte, EventByte, EventID, GroupID, LevelPermissionByte, PeerAddr, PeerInfoByte,
    RPCParams, SocketAddress,
};

verus! {

/// An event of a group, from or for a peer: the peer and the event's bytes.
#[derive(Clone)]
pub struct EventMessage(pub GroupID, pub PeerAddr, pub EventByte);

/// A peer asks to join: the peer, what it tells about itself, and the
/// socket it was heard on, if known.
#[derive(Clone)]
pub struct PeerJoinMessage(
    pub GroupID,
    pub PeerAddr,
    pub PeerInfoByte,
    pub Option<SocketAddress>,
);

/// The answer to a join request: the peer, whether it may join, and other
/// peers that can help it.
#[derive(Clone)]
pub struct PeerJoinResultMessage(pub GroupID, pub PeerAddr, pub bool, pub Vec<PeerAddr>);

/// A peer left: the peer, and whether every peer lost it (`true`) or only
/// this node did (`false`).
#[derive(Clone)]
pub struct PeerLeaveMessage(pub GroupID, pub PeerAddr, pub bool);

/// A local RPC request: the session, the parameters and the caller's socket.
#[derive(Clone)]
pub struct LocalMessage(pub GroupID, pub usize, pub RPCParams, pub SocketAddress);

/// The response to a local RPC request: the session and the result, if any.
#[derive(Clone)]
pub struct LocalResponseMessage(pub GroupID, pub usize, pub Option<RPCParams>);

/// A block sent to the group one level up: the session and the block.
#[derive(Clone)]
pub struct UpperMessage(pub GroupID, pub usize, pub BlockByte);

/// The upper group's answer: the session and the event it recorded, if any.
#[derive(Clone)]
pub struct UpperResponseMessage(pub GroupID, pub usize, pub Option<EventID>);

/// A block sent to the group one level down: the session and the block.
#[derive(Clone)]
pub struct LowerMessage(pub GroupID, pub usize, pub BlockByte);

/// The lower group's answer: the session and the event it recorded, if any.
#[derive(Clone)]
pub struct LowerResponseMessage(pub GroupID, pub usize, pub Option<EventID>);

/// A request for permission between levels: the session, the request's
/// bytes and the caller's socket.
#[derive(Clone)]
pub struct LevelPermissionMessage(
    pub GroupID,
    pub usize,
    pub LevelPermissionByte,
    pub SocketAddress,
);

/// The answer to a permission request: the session and whether it is
/// granted.
#[derive(Clone)]
pub struct LevelPermissionResponseMessage(pub GroupID, pub usize, pub bool);

/// A handler registers for a group: the group and the handler's address.
#[derive(Clone)]
pub struct BridgeAddrMessage<B>(pub GroupID, pub B);

/// The plane that a kind of message travels on below the bridge.
#[derive(Clone, Copy, Debug, PartialEq, Eq, Structural)]
pub enum Plane {
    P2P,
    RPC,
}

/// Any message of the bridge's ontology. Every kind leads with the group.
#[derive(Clone)]
pub enum BridgeMessage {
    Event(EventMessage),
    PeerJoin(PeerJoinMessage),
    PeerJoinResult(PeerJoinResultMessage),
    PeerLeave(PeerLeaveMessage),
    Local(LocalMessage),
    LocalResponse(LocalResponseMessage),
    Upper(UpperMessage),
    UpperResponse(UpperResponseMessage),
    Lower(LowerMessage),
    LowerResponse(LowerResponseMessage),
    LevelPermission(LevelPermissionMessage),
    LevelPermissionResponse(LevelPermissionResponseMessage),
}

impl BridgeMessage {
    /// The group that the message belongs to: its first field.
    pub open spec fn group_spec(self) -> GroupID {
        match self {
            BridgeMessage::Event(m) => m.0,
            BridgeMessage::PeerJoin(m) => m.0,
            BridgeMessage::PeerJoinResult(m) => m.0,
            BridgeMessage::PeerLeave(m) => m.0,
            BridgeMessage::Local(m) => m.0,
            BridgeMessage::LocalResponse(m) => m.0,
            BridgeMessage::Upper(m) => m.0,
            BridgeMessage::UpperResponse(m) => m.0,
            BridgeMessage::Lower(m) => m.0,
            BridgeMessage::LowerResponse(m) => m.0,
            BridgeMessage::LevelPermission(m) => m.0,
            BridgeMessage::LevelPermissionResponse(m) => m.0,
        }
    }

    /// The plane of the message's kind: overlay traffic travels on the P2P
    /// plane, requests and responses on the RPC plane.
    pub open spec fn plane_spec(self) -> Plane {
        match self {
            BridgeMessage::Event(_) => Plane::P2P,
            BridgeMessage::PeerJoin(_) => Plane::P2P,
            BridgeMessage::PeerJoinResult(_) => Plane::P2P,
            BridgeMessage::PeerLeave(_) => Plane::P2P,
            _ => Plane::RPC,
        }
    }

    /// Whether the message is one of the four RPC requests.
    pub open spec fn is_request_spec(self) -> bool {
        match self {
            BridgeMessage::Local(_) => true,
            BridgeMessage::Upper(_) => true,
            BridgeMessage::Lower(_) => true,
            BridgeMessage::LevelPermission(_) => true,
            _ => false,
        }
    }

    /// The RPC session of the message; overlay traffic has none.
    pub open spec fn session_spec(self) -> Option<usize> {
        match self {
            BridgeMessage::Local(m) => Some(m.1),
            BridgeMessage::LocalResponse(m) => Some(m.1),
            BridgeMessage::Upper(m) => Some(m.1),
            BridgeMessage::UpperResponse(m) => Some(m.1),
            BridgeMessage::Lower(m) => Some(m.1),
            BridgeMessage::LowerResponse(m) => Some(m.1),
            BridgeMessage::LevelPermission(m) => Some(m.1),
            BridgeMessage::LevelPermissionResponse(m) => Some(m.1),
            _ => None,
        }
    }

    /// The group that the message belongs to.
    pub fn group(&self) -> (g: &GroupID)
        ensures
            *g == self.group_spec(),
    {
        match self {
            BridgeMessage::Event(m) => &m.0,
            BridgeMessage::PeerJoin(m) => &m.0,
            BridgeMessage::PeerJoinResult(m) => &m.0,
            BridgeMessage::PeerLeave(m) => &m.0,
            BridgeMessage::Local(m) => &m.0,
            BridgeMessage::LocalResponse(m) => &m.0,
            BridgeMessage::Upper(m) => &m.0,
            BridgeMessage::UpperResponse(m) => &m.0,
            BridgeMessage::Lower(m) => &m.0,
            BridgeMessage::LowerResponse(m) => &m.0,
            BridgeMessage::LevelPermission(m) => &m.0,
            BridgeMessage::LevelPermissionResponse(m) => &m.0,
        }
    }

    /// The plane of the message's kind.
    pub fn plane(&self) -> (p: Plane)
        ensures
            p == self.plane_spec(),
    {
        match self {
            BridgeMessage::Event(_) => Plane::P2P,
            BridgeMessage::PeerJoin(_) => Plane::P2P,
            BridgeMessage::PeerJoinResult(_) => Plane::P2P,
            BridgeMessage::PeerLeave(_) => Plane::P2P,
            _ => Plane::RPC,
        }
    }

    /// Whether the message is one of the four RPC requests.
    pub fn is_request(&self) -> (b: bool)
        ensures
            b == self.is_request_spec(),
    {
        match self {
            BridgeMessage::Local(_) => true,
            BridgeMessage::Upper(_) => true,
            BridgeMessage::Lower(_) => true,
            BridgeMessage::LevelPermission(_) => true,
            _ => false,
        }
    }

    /// The RPC session of the message; overlay traffic has none.
    pub fn session(&self) -> (s: Option<usize>)
        ensures
            s == self.session_spec(),
    {
        match self {
            BridgeMessage::Local(m) => Some(m.1),
            BridgeMessage::LocalResponse(m) => Some(m.1),
            BridgeMessage::Upper(m) => Some(m.1),
            BridgeMessage::UpperResponse(m) => Some(m.1),
            BridgeMessage::Lower(m) => Some(m.1),
            BridgeMessage::LowerResponse(m) => Some(m.1),
            BridgeMessage::LevelPermission(m) => Some(m.1),
            BridgeMessage::LevelPermissionResponse(m) => Some(m.1),
            _ => None,
        }
    }
}

} // verus!
