use vstd::prelude::*;

use crate::primitives::types::GroupID;
use crate::traits::message::bridge_message::{
    BridgeAddrMessage, BridgeMessage, EventMessage, LevelPermissionMessage,
    LevelPermissionResponseMessage, LocalMessage, LocalResponseMessage, LowerMessage,
    LowerResponseMessage, PeerJoinMessage, PeerJoinResultMessage, PeerLeaveMessage, UpperMessage,
    UpperResponseMessage,
};
use crate::traits::message::multiple_bridge_message::{
    MultipleBridgeMessage, MultipleEventMessage, MultipleLevelPermissionMessage,
    MultipleLevelPermissionResponseMessage, MultipleLocalMessage, MultipleLocalResponseMessage,
    MultipleLowerMessage, MultipleLowerResponseMessage, MultiplePeerJoinMessage,
    MultiplePeerJoinResultMessage, MultiplePeerLeaveMessage, MultipleUpperMessage,
    MultipleUpperResponseMessage,
};

verus! {

/// A bridge message without its group: the same kind, the same fields.
pub open spec fn strip(msg: BridgeMessage) -> MultipleBridgeMessage {
    match msg {
        BridgeMessage::Event(m) => MultipleBridgeMessage::Event(MultipleEventMessage(m.1, m.2)),
        BridgeMessage::PeerJoin(m) => MultipleBridgeMessage::PeerJoin(
            MultiplePeerJoinMessage(m.1, m.2, m.3),
        ),
        BridgeMessage::PeerJoinResult(m) => MultipleBridgeMessage::PeerJoinResult(
            MultiplePeerJoinResultMessage(m.1, m.2, m.3),
        ),
        BridgeMessage::PeerLeave(m) => MultipleBridgeMessage::PeerLeave(
            MultiplePeerLeaveMessage(m.1, m.2),
        ),
        BridgeMessage::Local(m) => MultipleBridgeMessage::Local(
            MultipleLocalMessage(m.1, m.2, m.3),
        ),
        BridgeMessage::LocalResponse(m) => MultipleBridgeMessage::LocalResponse(
            MultipleLocalResponseMessage(m.1, m.2),
        ),
        BridgeMessage::Upper(m) => MultipleBridgeMessage::Upper(MultipleUpperMessage(m.1, m.2)),
        BridgeMessage::UpperResponse(m) => MultipleBridgeMessage::UpperResponse(
            MultipleUpperResponseMessage(m.1, m.2),
        ),
        BridgeMessage::Lower(m) => MultipleBridgeMessage::Lower(MultipleLowerMessage(m.1, m.2)),
        BridgeMessage::LowerResponse(m) => MultipleBridgeMessage::LowerResponse(
            MultipleLowerResponseMessage(m.1, m.2),
        ),
        BridgeMessage::LevelPermission(m) => MultipleBridgeMessage::LevelPermission(
            MultipleLevelPermissionMessage(m.1, m.2, m.3),
        ),
        BridgeMessage::LevelPermissionResponse(m) => MultipleBridgeMessage::LevelPermissionResponse(
            MultipleLevelPermissionResponseMessage(m.1, m.2),
        ),
    }
}

/// A message with `group_id` put in front: the same kind, the same fields.
pub open spec fn qualify(group_id: GroupID, msg: MultipleBridgeMessage) -> BridgeMessage {
    match msg {
        MultipleBridgeMessage::Event(m) => BridgeMessage::Event(EventMessage(group_id, m.0, m.1)),
        MultipleBridgeMessage::PeerJoin(m) => BridgeMessage::PeerJoin(
            PeerJoinMessage(group_id, m.0, m.1, m.2),
        ),
        MultipleBridgeMessage::PeerJoinResult(m) => BridgeMessage::PeerJoinResult(
            PeerJoinResultMessage(group_id, m.0, m.1, m.2),
        ),
        MultipleBridgeMessage::PeerLeave(m) => BridgeMessage::PeerLeave(
            PeerLeaveMessage(group_id, m.0, m.1),
        ),
        MultipleBridgeMessage::Local(m) => BridgeMessage::Local(
            LocalMessage(group_id, m.0, m.1, m.2),
        ),
        MultipleBridgeMessage::LocalResponse(m) => BridgeMessage::LocalResponse(
            LocalResponseMessage(group_id, m.0, m.1),
        ),
        MultipleBridgeMessage::Upper(m) => BridgeMessage::Upper(UpperMessage(group_id, m.0, m.1)),
        MultipleBridgeMessage::UpperResponse(m) => BridgeMessage::UpperResponse(
            UpperResponseMessage(group_id, m.0, m.1),
        ),
        MultipleBridgeMessage::Lower(m) => BridgeMessage::Lower(LowerMessage(group_id, m.0, m.1)),
        MultipleBridgeMessage::LowerResponse(m) => BridgeMessage::LowerResponse(
            LowerResponseMessage(group_id, m.0, m.1),
        ),
        MultipleBridgeMessage::LevelPermission(m) => BridgeMessage::LevelPermission(
            LevelPermissionMessage(group_id, m.0, m.1, m.2),
        ),
        MultipleBridgeMessage::LevelPermissionResponse(m) => BridgeMessage::LevelPermissionResponse(
            LevelPermissionResponseMessage(group_id, m.0, m.1),
        ),
    }
}

/// The handler that the bridge sees for one group. It hands every message
/// of the group to the application without the group identifier, and puts
/// the identifier back on what the application sends.
#[derive(Clone)]
pub struct MultipleNetworkBridgeActor<N, A> {
    group_id: GroupID,
    network_bridge: N,
    recipient: A,
}

impl<N, A> MultipleNetworkBridgeActor<N, A> {
    pub closed spec fn group(&self) -> GroupID {
        self.group_id
    }

    pub closed spec fn network(&self) -> N {
        self.network_bridge
    }

    pub closed spec fn inner(&self) -> A {
        self.recipient
    }

    /// The adapter of `group_id` between the bridge at `network_bridge` and
    /// the application at `addr`.
    pub fn new(group_id: GroupID, network_bridge: N, addr: A) -> (actor: Self)
        ensures
            actor.group() == group_id,
            actor.network() == network_bridge,
            actor.inner() == addr,
    {
        Self { group_id: group_id, network_bridge: network_bridge, recipient: addr }
    }

    /// The address of the bridge.
    pub fn network_addr(&self) -> (addr: &N)
        ensures
            *addr == self.network(),
    {
        &self.network_bridge
    }

    /// The address of the application.
    pub fn recipient(&self) -> (addr: &A)
        ensures
            *addr == self.inner(),
    {
        &self.recipient
    }

    /// The group that the adapter stands for.
    pub fn group_id(&self) -> (g: &GroupID)
        ensures
            *g == self.group(),
    {
        &self.group_id
    }

    /// The message with which the adapter, reachable at `own`, registers
    /// for its group when it starts.
    pub fn started<B>(&self, own: B) -> (msg: BridgeAddrMessage<B>)
        ensures
            msg.0 == self.group(),
            msg.1 == own,
    {
        BridgeAddrMessage(self.group_id, own)
    }

    /// Turns a message from the bridge into the one for the application:
    /// the group is taken off, everything else stays.
    pub fn handle(&self, msg: BridgeMessage) -> (out: MultipleBridgeMessage)
        ensures
            out == strip(msg),
    {
        match msg {
            BridgeMessage::Event(m) => MultipleBridgeMessage::Event(
                MultipleEventMessage(m.1, m.2),
            ),
            BridgeMessage::PeerJoin(m) => MultipleBridgeMessage::PeerJoin(
                MultiplePeerJoinMessage(m.1, m.2, m.3),
            ),
            BridgeMessage::PeerJoinResult(m) => MultipleBridgeMessage::PeerJoinResult(
                MultiplePeerJoinResultMessage(m.1, m.2, m.3),
            ),
            BridgeMessage::PeerLeave(m) => MultipleBridgeMessage::PeerLeave(
                MultiplePeerLeaveMessage(m.1, m.2),
            ),
            BridgeMessage::Local(m) => MultipleBridgeMessage::Local(
                MultipleLocalMessage(m.1, m.2, m.3),
            ),
            BridgeMessage::LocalResponse(m) => MultipleBridgeMessage::LocalResponse(
                MultipleLocalResponseMessage(m.1, m.2),
            ),
            BridgeMessage::Upper(m) => MultipleBridgeMessage::Upper(
                MultipleUpperMessage(m.1, m.2),
            ),
            BridgeMessage::UpperResponse(m) => MultipleBridgeMessage::UpperResponse(
                MultipleUpperResponseMessage(m.1, m.2),
            ),
            BridgeMessage::Lower(m) => MultipleBridgeMessage::Lower(
                MultipleLowerMessage(m.1, m.2),
            ),
            BridgeMessage::LowerResponse(m) => MultipleBridgeMessage::LowerResponse(
                MultipleLowerResponseMessage(m.1, m.2),
            ),
            BridgeMessage::LevelPermission(m) => MultipleBridgeMessage::LevelPermission(
                MultipleLevelPermissionMessage(m.1, m.2, m.3),
            ),
            BridgeMessage::LevelPermissionResponse(m) => {
                MultipleBridgeMessage::LevelPermissionResponse(
                    MultipleLevelPermissionResponseMessage(m.1, m.2),
                )
            },
        }
    }

    /// Turns a message from the application into the one for the bridge:
    /// the adapter's group is put in front, everything else stays.
    pub fn send_network(&self, msg: MultipleBridgeMessage) -> (out: BridgeMessage)
        ensures
            out == qualify(self.group(), msg),
    {
        let group_id = self.group_id;
        match msg {
            MultipleBridgeMessage::Event(m) => BridgeMessage::Event(
                EventMessage(group_id, m.0, m.1),
            ),
            MultipleBridgeMessage::PeerJoin(m) => BridgeMessage::PeerJoin(
                PeerJoinMessage(group_id, m.0, m.1, m.2),
            ),
            MultipleBridgeMessage::PeerJoinResult(m) => BridgeMessage::PeerJoinResult(
                PeerJoinResultMessage(group_id, m.0, m.1, m.2),
            ),
            MultipleBridgeMessage::PeerLeave(m) => BridgeMessage::PeerLeave(
                PeerLeaveMessage(group_id, m.0, m.1),
            ),
            MultipleBridgeMessage::Local(m) => BridgeMessage::Local(
                LocalMessage(group_id, m.0, m.1, m.2),
            ),
            MultipleBridgeMessage::LocalResponse(m) => BridgeMessage::LocalResponse(
                LocalResponseMessage(group_id, m.0, m.1),
            ),
            MultipleBridgeMessage::Upper(m) => BridgeMessage::Upper(
                UpperMessage(group_id, m.0, m.1),
            ),
            MultipleBridgeMessage::UpperResponse(m) => BridgeMessage::UpperResponse(
                UpperResponseMessage(group_id, m.0, m.1),
            ),
            MultipleBridgeMessage::Lower(m) => BridgeMessage::Lower(
                LowerMessage(group_id, m.0, m.1),
            ),
            MultipleBridgeMessage::LowerResponse(m) => BridgeMessage::LowerResponse(
                LowerResponseMessage(group_id, m.0, m.1),
            ),
            MultipleBridgeMessage::LevelPermission(m) => BridgeMessage::LevelPermission(
                LevelPermissionMessage(group_id, m.0, m.1, m.2),
            ),
            MultipleBridgeMessage::LevelPermissionResponse(m) => {
                BridgeMessage::LevelPermissionResponse(
                    LevelPermissionResponseMessage(group_id, m.0, m.1),
                )
            },
        }
    }
}

/// Taking the group off a message and putting it back gives the message:
/// for every message of group `group_id`, the way down and up again
/// restores it.
pub proof fn lemma_qualify_strip(group_id: GroupID, msg: BridgeMessage)
    requires
        msg.group_spec() == group_id,
    ensures
        qualify(group_id, strip(msg)) == msg,
{
}

/// Putting a group on a message and taking it off gives the message, and
/// the qualified message carries that group.
pub proof fn lemma_strip_qualify(group_id: GroupID, msg: MultipleBridgeMessage)
    ensures
        strip(qualify(group_id, msg)) == msg,
        qualify(group_id, msg).group_spec() == group_id,
{
}

/// Messages of one group that look the same to the application are the
/// same message.
pub proof fn lemma_strip_injective(a: BridgeMessage, b: BridgeMessage)
    requires
        a.group_spec() == b.group_spec(),
        strip(a) == strip(b),
    ensures
        a == b,
{
    lemma_qualify_strip(a.group_spec(), a);
    lemma_qualify_strip(b.group_spec(), b);
}

} // verus!
