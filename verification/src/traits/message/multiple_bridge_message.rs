use vstd::prelude::*;

use crate::primitives::types::{
    BlockByte, EventByte, EventID, LevelPermissionByte, PeerAddr, PeerInfoByte, RPCParams,
    SocketAddress,
};

verus! {

/// An event, from or for a peer: the peer and the event's bytes.
#[derive(Clone)]
pub struct MultipleEventMessage(pub PeerAddr, pub EventByte);

/// A peer asks to join: the peer, what it tells about itself, and the
/// socket it was heard on, if known.
#[derive(Clone)]
pub struct MultiplePeerJoinMessage(pub PeerAddr, pub PeerInfoByte, pub Option<SocketAddress>);

/// The answer to a join request: the peer, whether it may join, and other
/// peers that can help it.
#[derive(Clone)]
pub struct MultiplePeerJoinResultMessage(pub PeerAddr, pub bool, pub Vec<PeerAddr>);

/// A peer left: the peer, and whether every peer lost it (`true`) or only
/// this node did (`false`).
#[derive(Clone)]
pub struct MultiplePeerLeaveMessage(pub PeerAddr, pub bool);

/// A local RPC request: the session, the parameters and the caller's socket.
#[derive(Clone)]
pub struct MultipleLocalMessage(pub usize, pub RPCParams, pub SocketAddress);

/// The response to a local RPC request: the session and the result, if any.
#[derive(Clone)]
pub struct MultipleLocalResponseMessage(pub usize, pub Option<RPCParams>);

/// A block sent to the group one level up: the session and the block.
#[derive(Clone)]
pub struct MultipleUpperMessage(pub usize, pub BlockByte);

/// The upper group's answer: the session and the event it recorded, if any.
#[derive(Clone)]
pub struct MultipleUpperResponseMessage(pub usize, pub Option<EventID>);

/// A block sent to the group one level down: the session and the block.
#[derive(Clone)]
pub struct MultipleLowerMessage(pub usize, pub BlockByte);

/// The lower group's answer: the session and the event it recorded, if any.
#[derive(Clone)]
pub struct MultipleLowerResponseMessage(pub usize, pub Option<EventID>);

/// A request for permission between levels: the session, the request's
/// bytes and the caller's socket.
#[derive(Clone)]
pub struct MultipleLevelPermissionMessage(pub usize, pub LevelPermissionByte, pub SocketAddress);

/// The answer to a permission request: the session and whether it is
/// granted.
#[derive(Clone)]
pub struct MultipleLevelPermissionResponseMessage(pub usize, pub bool);

/// Any message of the ontology, without the leading group.
#[derive(Clone)]
pub enum MultipleBridgeMessage {
    Event(MultipleEventMessage),
    PeerJoin(MultiplePeerJoinMessage),
    PeerJoinResult(MultiplePeerJoinResultMessage),
    PeerLeave(MultiplePeerLeaveMessage),
    Local(MultipleLocalMessage),
    LocalResponse(MultipleLocalResponseMessage),
    Upper(MultipleUpperMessage),
    UpperResponse(MultipleUpperResponseMessage),
    Lower(MultipleLowerMessage),
    LowerResponse(MultipleLowerResponseMessage),
    LevelPermission(MultipleLevelPermissionMessage),
    LevelPermissionResponse(MultipleLevelPermissionResponseMessage),
}

} // verus!
