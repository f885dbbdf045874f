use vstd::prelude::*;

use crate::primitives::types::GroupID;
use crate::traits::message::bridge_message::{
    BridgeAddrMessage, BridgeMessage, LevelPermissionResponseMessage, Plane,
};

verus! {

broadcast use crate::crypto::hash::H256::lemma_len;

/// What the bridge decides to do with a message.
pub enum BridgeAction<'a, B> {
    /// Deliver the message to this handler, the one registered for its group.
    Bridge(&'a B, BridgeMessage),
    /// Hand the message to the P2P plane.
    P2P(BridgeMessage),
    /// Hand the message to the RPC plane.
    RPC(BridgeMessage),
    /// No handler is registered for the message's group: nothing is sent.
    Nothing,
}

/// The response that denies an RPC request.
pub open spec fn denial(msg: BridgeMessage) -> BridgeMessage {
    BridgeMessage::LevelPermissionResponse(
        LevelPermissionResponseMessage(msg.group_spec(), msg.session_spec().unwrap(), false),
    )
}

/// Where a message from one of the planes goes, given the registered
/// handlers: to the handler of its group; or, without one, a denial back to
/// the RPC plane for a request and nowhere for anything else.
pub open spec fn route_up<'a, B>(registry: Map<Seq<u8>, B>, msg: BridgeMessage) -> BridgeAction<
    'a,
    B,
> {
    if registry.contains_key(msg.group_spec()@) {
        BridgeAction::Bridge(&registry[msg.group_spec()@], msg)
    } else if msg.is_request_spec() {
        BridgeAction::RPC(denial(msg))
    } else {
        BridgeAction::Nothing
    }
}

/// Where a message from a handler goes: to the plane of its kind, as it is.
pub open spec fn route_down<'a, B>(msg: BridgeMessage) -> BridgeAction<'a, B> {
    if msg.plane_spec() == Plane::P2P {
        BridgeAction::P2P(msg)
    } else {
        BridgeAction::RPC(msg)
    }
}

/// The hub between the two planes and the handlers: it keeps the one
/// handler of each group and decides where every message goes.
pub struct NetworkBridgeActor<P, R, B> {
    p2p_addr: P,
    rpc_addr: R,
    bridges: Vec<(GroupID, B)>,
}

/// Whether `entries` holds an entry for the group with bytes `k`.
pub open spec fn has_entry<B>(entries: Seq<(GroupID, B)>, k: Seq<u8>) -> bool {
    exists|i: int| 0 <= i < entries.len() && (#[trigger] entries[i]).0@ == k
}

/// The place of the entry for the group with bytes `k`.
pub open spec fn entry_index<B>(entries: Seq<(GroupID, B)>, k: Seq<u8>) -> int {
    choose|i: int| 0 <= i < entries.len() && (#[trigger] entries[i]).0@ == k
}

/// No group has two entries.
pub open spec fn distinct_groups<B>(entries: Seq<(GroupID, B)>) -> bool {
    forall|i: int, j: int|
        0 <= i < entries.len() && 0 <= j < entries.len() && (#[trigger] entries[i]).0@ == (
        #[trigger] entries[j]).0@ ==> i == j
}

/// The handlers of `entries`, by the bytes of their groups.
pub open spec fn entries_map<B>(entries: Seq<(GroupID, B)>) -> Map<Seq<u8>, B> {
    Map::new(|k: Seq<u8>| has_entry(entries, k), |k: Seq<u8>| entries[entry_index(entries, k)].1)
}

impl<P, R, B> NetworkBridgeActor<P, R, B> {
    #[verifier::type_invariant]
    spec fn inv(self) -> bool {
        distinct_groups(self.bridges@)
    }

    /// The registered handlers, by the bytes of their groups.
    pub closed spec fn registry(&self) -> Map<Seq<u8>, B> {
        entries_map(self.bridges@)
    }

    pub closed spec fn p2p(&self) -> P {
        self.p2p_addr
    }

    pub closed spec fn rpc(&self) -> R {
        self.rpc_addr
    }

    /// A bridge between the two planes, with no handler registered.
    pub fn load(p2p_addr: P, rpc_addr: R) -> (bridge: Self)
        ensures
            bridge.registry() == Map::<Seq<u8>, B>::empty(),
            bridge.p2p() == p2p_addr,
            bridge.rpc() == rpc_addr,
    {
        let bridges: Vec<(GroupID, B)> = Vec::new();
        let bridge = Self { p2p_addr, rpc_addr, bridges };
        assert(bridge.registry() =~= Map::<Seq<u8>, B>::empty());
        bridge
    }

    /// The address of the P2P plane.
    pub fn p2p_addr(&self) -> (addr: &P)
        ensures
            *addr == self.p2p(),
    {
        &self.p2p_addr
    }

    /// The address of the RPC plane.
    pub fn rpc_addr(&self) -> (addr: &R)
        ensures
            *addr == self.rpc(),
    {
        &self.rpc_addr
    }

    fn position(&self, group_id: &GroupID) -> (r: Option<usize>)
        ensures
            r.is_some() <==> self.registry().contains_key(group_id@),
            r.is_some() ==> r.unwrap() < self.bridges@.len() && self.bridges@[r.unwrap() as int].0@
                == group_id@ && self.registry()[group_id@] == self.bridges@[r.unwrap() as int].1,
    {
        proof {
            use_type_invariant(self);
        }
        let mut i: usize = 0;
        while i < self.bridges.len()
            invariant
                i <= self.bridges@.len(),
                distinct_groups(self.bridges@),
                forall|j: int| 0 <= j < i ==> (#[trigger] self.bridges@[j]).0@ != group_id@,
            decreases self.bridges@.len() - i,
        {
            if self.bridges[i].0 == *group_id {
                proof {
                    assert(self.bridges@[i as int].0@ == group_id@);
                    assert(has_entry(self.bridges@, group_id@));
                    let j = entry_index(self.bridges@, group_id@);
                    assert(self.bridges@[j].0@ == self.bridges@[i as int].0@);
                }
                return Some(i);
            }
            i += 1;
        }
        None
    }

    /// Whether a handler is registered for the group.
    pub fn is_registered(&self, group_id: &GroupID) -> (b: bool)
        ensures
            b == self.registry().contains_key(group_id@),
    {
        self.position(group_id).is_some()
    }

    /// The handler registered for the group, if there is one.
    pub fn handler(&self, group_id: &GroupID) -> (h: Option<&B>)
        ensures
            h.is_some() == self.registry().contains_key(group_id@),
            h.is_some() ==> *h.unwrap() == self.registry()[group_id@],
    {
        match self.position(group_id) {
            Some(i) => Some(&self.bridges[i].1),
            None => None,
        }
    }

    /// Registers the handler of a group. A handler registered earlier for
    /// the same group is replaced; every other group keeps its handler.
    pub fn register(&mut self, msg: BridgeAddrMessage<B>)
        ensures
            final(self).registry() == old(self).registry().insert(msg.0@, msg.1),
            final(self).p2p() == old(self).p2p(),
            final(self).rpc() == old(self).rpc(),
    {
        proof {
            use_type_invariant(&*self);
        }
        let ghost before = self.bridges@;
        let ghost entry = (msg.0, msg.1);
        let found = self.position(&msg.0);
        let mut bridges: Vec<(GroupID, B)> = Vec::new();
        core::mem::swap(&mut self.bridges, &mut bridges);
        match found {
            Some(i) => {
                bridges.set(i, (msg.0, msg.1));
                proof {
                    lemma_entries_update(before, i as int, entry);
                }
            },
            None => {
                bridges.push((msg.0, msg.1));
                proof {
                    lemma_entries_push(before, entry);
                }
            },
        }
        self.bridges = bridges;
    }

    /// Removes the handler of a group and returns it, if there was one.
    /// Every other group keeps its handler.
    pub fn unregister(&mut self, group_id: &GroupID) -> (gone: Option<B>)
        ensures
            gone.is_some() == old(self).registry().contains_key(group_id@),
            gone.is_some() ==> gone.unwrap() == old(self).registry()[group_id@],
            final(self).registry() == old(self).registry().remove(group_id@),
            final(self).p2p() == old(self).p2p(),
            final(self).rpc() == old(self).rpc(),
    {
        proof {
            use_type_invariant(&*self);
        }
        let ghost before = self.bridges@;
        match self.position(group_id) {
            Some(i) => {
                let mut bridges: Vec<(GroupID, B)> = Vec::new();
                core::mem::swap(&mut self.bridges, &mut bridges);
                let entry = bridges.remove(i);
                proof {
                    lemma_entries_remove(before, i as int);
                }
                self.bridges = bridges;
                Some(entry.1)
            },
            None => {
                assert(self.registry() =~= self.registry().remove(group_id@));
                None
            },
        }
    }

    /// Delivers a message to the handler of a group, if one is registered.
    pub fn send_bridge(&self, group_id: &GroupID, message: BridgeMessage) -> (action: BridgeAction<
        '_,
        B,
    >)
        ensures
            action == if self.registry().contains_key(group_id@) {
                BridgeAction::Bridge(&self.registry()[group_id@], message)
            } else {
                BridgeAction::Nothing
            },
    {
        match self.handler(group_id) {
            Some(addr) => BridgeAction::Bridge(addr, message),
            None => BridgeAction::Nothing,
        }
    }

    /// Hands a message to the P2P plane.
    pub fn send_p2p(&self, message: BridgeMessage) -> (action: BridgeAction<'_, B>)
        ensures
            action == BridgeAction::<B>::P2P(message),
    {
        BridgeAction::P2P(message)
    }

    /// Hands a message to the RPC plane.
    pub fn send_rpc(&self, message: BridgeMessage) -> (action: BridgeAction<'_, B>)
        ensures
            action == BridgeAction::<B>::RPC(message),
    {
        BridgeAction::RPC(message)
    }

    /// Routes a message that a handler sends: overlay traffic goes to the
    /// P2P plane, requests and responses go to the RPC plane, unchanged.
    pub fn handle(&self, msg: BridgeMessage) -> (action: BridgeAction<'_, B>)
        ensures
            action == route_down::<B>(msg),
    {
        match msg.plane() {
            Plane::P2P => self.send_p2p(msg),
            Plane::RPC => self.send_rpc(msg),
        }
    }

    /// Routes a message that one of the planes delivers. With a handler
    /// registered for its group, the message goes to that handler,
    /// unchanged. Without one, an RPC request is answered with a denial and
    /// anything else is dropped.
    pub fn receive(&self, msg: BridgeMessage) -> (action: BridgeAction<'_, B>)
        ensures
            action == route_up(self.registry(), msg),
    {
        let group_id = *msg.group();
        if !self.is_registered(&group_id) {
            return match msg.session() {
                Some(session) => {
                    if msg.is_request() {
                        self.send_rpc(
                            BridgeMessage::LevelPermissionResponse(
                                LevelPermissionResponseMessage(group_id, session, false),
                            ),
                        )
                    } else {
                        BridgeAction::Nothing
                    }
                },
                None => BridgeAction::Nothing,
            };
        }
        self.send_bridge(&group_id, msg)
    }

    /// Number of groups with a handler.
    pub fn groups(&self) -> (n: usize)
        ensures
            n == self.registry().len(),
    {
        proof {
            use_type_invariant(self);
            lemma_entries_len(self.bridges@);
        }
        self.bridges.len()
    }
}

/// Registering twice for one group leaves the second handler in charge:
/// whatever the planes deliver for that group afterwards goes to it.
pub proof fn lemma_last_registration_wins<B>(
    registry: Map<Seq<u8>, B>,
    group_id: GroupID,
    first: B,
    second: B,
    msg: BridgeMessage,
)
    requires
        msg.group_spec()@ == group_id@,
    ensures
        registry.insert(group_id@, first).insert(group_id@, second) == registry.insert(
            group_id@,
            second,
        ),
        route_up(registry.insert(group_id@, first).insert(group_id@, second), msg)
            == BridgeAction::Bridge(&second, msg),
{
    assert(registry.insert(group_id@, first).insert(group_id@, second) =~= registry.insert(
        group_id@,
        second,
    ));
}

/// A request for a group without a handler gets exactly one answer: the
/// denial for its group and session, sent back to the RPC plane.
pub proof fn lemma_unregistered_denied<B>(registry: Map<Seq<u8>, B>, msg: BridgeMessage)
    requires
        msg.is_request_spec(),
        !registry.contains_key(msg.group_spec()@),
    ensures
        route_up(registry, msg) == BridgeAction::<B>::RPC(
            BridgeMessage::LevelPermissionResponse(
                LevelPermissionResponseMessage(
                    msg.group_spec(),
                    msg.session_spec().unwrap(),
                    false,
                ),
            ),
        ),
{
}

/// A message for a group with a handler reaches that handler unchanged,
/// and one from a handler reaches its plane unchanged.
pub proof fn lemma_routes_verbatim<B>(registry: Map<Seq<u8>, B>, msg: BridgeMessage)
    ensures
        registry.contains_key(msg.group_spec()@) ==> route_up(registry, msg)
            == BridgeAction::Bridge(&registry[msg.group_spec()@], msg),
        route_down::<B>(msg) == BridgeAction::<B>::P2P(msg) || route_down::<B>(msg)
            == BridgeAction::<B>::RPC(msg),
{
}

/// In a list without repeated groups, each entry is what the map holds for
/// its group.
proof fn lemma_entry_at<B>(entries: Seq<(GroupID, B)>, i: int)
    requires
        distinct_groups(entries),
        0 <= i < entries.len(),
    ensures
        has_entry(entries, entries[i].0@),
        entries_map(entries)[entries[i].0@] == entries[i].1,
{
    let k = entries[i].0@;
    assert(has_entry(entries, k));
    let j = entry_index(entries, k);
    assert(entries[j].0@ == entries[i].0@);
}

/// Appending an entry for a new group inserts it in the map.
proof fn lemma_entries_push<B>(entries: Seq<(GroupID, B)>, e: (GroupID, B))
    requires
        distinct_groups(entries),
        !has_entry(entries, e.0@),
    ensures
        distinct_groups(entries.push(e)),
        entries_map(entries.push(e)) == entries_map(entries).insert(e.0@, e.1),
{
    let after = entries.push(e);
    assert(forall|i: int| 0 <= i < entries.len() ==> after[i] == entries[i]);
    assert(after[entries.len() as int] == e);
    assert(distinct_groups(after)) by {
        assert forall|i: int, j: int|
            0 <= i < after.len() && 0 <= j < after.len() && (#[trigger] after[i]).0@ == (
            #[trigger] after[j]).0@ implies i == j by {
            if i < entries.len() && j < entries.len() {
                assert(entries[i].0@ == entries[j].0@);
            } else if i < entries.len() {
                assert(entries[i].0@ == e.0@);
            } else if j < entries.len() {
                assert(entries[j].0@ == e.0@);
            }
        }
    }
    assert forall|k: Seq<u8>| has_entry(after, k) <==> (has_entry(entries, k) || k == e.0@) by {
        if has_entry(after, k) {
            let i = entry_index(after, k);
            if i < entries.len() {
                assert(entries[i].0@ == k);
            }
        }
        if has_entry(entries, k) {
            let i = entry_index(entries, k);
            assert(after[i].0@ == k);
        }
        if k == e.0@ {
            assert(after[entries.len() as int].0@ == k);
        }
    }
    assert forall|k: Seq<u8>| has_entry(after, k) implies entries_map(after)[k] == entries_map(
        entries,
    ).insert(e.0@, e.1)[k] by {
        let i = entry_index(after, k);
        lemma_entry_at(after, i);
        if i < entries.len() {
            lemma_entry_at(entries, i);
        }
    }
    assert(entries_map(after) =~= entries_map(entries).insert(e.0@, e.1));
}

/// Overwriting the entry of a group replaces its handler in the map.
proof fn lemma_entries_update<B>(entries: Seq<(GroupID, B)>, at: int, e: (GroupID, B))
    requires
        distinct_groups(entries),
        0 <= at < entries.len(),
        entries[at].0@ == e.0@,
    ensures
        distinct_groups(entries.update(at, e)),
        entries_map(entries.update(at, e)) == entries_map(entries).insert(e.0@, e.1),
{
    let after = entries.update(at, e);
    assert(forall|i: int| 0 <= i < entries.len() ==> (#[trigger] after[i]).0@ == entries[i].0@);
    assert(distinct_groups(after)) by {
        assert forall|i: int, j: int|
            0 <= i < after.len() && 0 <= j < after.len() && (#[trigger] after[i]).0@ == (
            #[trigger] after[j]).0@ implies i == j by {
            assert(entries[i].0@ == entries[j].0@);
        }
    }
    assert forall|k: Seq<u8>| has_entry(after, k) <==> (has_entry(entries, k) || k == e.0@) by {
        if has_entry(after, k) {
            let i = entry_index(after, k);
            assert(entries[i].0@ == k);
        }
        if has_entry(entries, k) {
            let i = entry_index(entries, k);
            assert(after[i].0@ == k);
        }
        if k == e.0@ {
            assert(after[at].0@ == k);
        }
    }
    assert forall|k: Seq<u8>| has_entry(after, k) implies entries_map(after)[k] == entries_map(
        entries,
    ).insert(e.0@, e.1)[k] by {
        let i = entry_index(after, k);
        lemma_entry_at(after, i);
        lemma_entry_at(entries, i);
    }
    assert(entries_map(after) =~= entries_map(entries).insert(e.0@, e.1));
}

/// Taking an entry out removes its group from the map.
proof fn lemma_entries_remove<B>(entries: Seq<(GroupID, B)>, at: int)
    requires
        distinct_groups(entries),
        0 <= at < entries.len(),
    ensures
        distinct_groups(entries.remove(at)),
        entries_map(entries)[entries[at].0@] == entries[at].1,
        entries_map(entries.remove(at)) == entries_map(entries).remove(entries[at].0@),
{
    let after = entries.remove(at);
    let gone = entries[at].0@;
    lemma_entry_at(entries, at);
    assert(forall|i: int| 0 <= i < at ==> #[trigger] after[i] == entries[i]);
    assert(forall|i: int| at <= i < after.len() ==> #[trigger] after[i] == entries[i + 1]);
    assert(distinct_groups(after)) by {
        assert forall|i: int, j: int|
            0 <= i < after.len() && 0 <= j < after.len() && (#[trigger] after[i]).0@ == (
            #[trigger] after[j]).0@ implies i == j by {
            let oi = if i < at {
                i
            } else {
                i + 1
            };
            let oj = if j < at {
                j
            } else {
                j + 1
            };
            assert(entries[oi].0@ == entries[oj].0@);
        }
    }
    assert forall|k: Seq<u8>| has_entry(after, k) <==> (has_entry(entries, k) && k != gone) by {
        if has_entry(after, k) {
            let i = entry_index(after, k);
            let oi = if i < at {
                i
            } else {
                i + 1
            };
            assert(entries[oi].0@ == k);
            if k == gone {
                assert(entries[oi].0@ == entries[at].0@);
            }
        }
        if has_entry(entries, k) && k != gone {
            let i = entry_index(entries, k);
            if i < at {
                assert(after[i].0@ == k);
            } else {
                assert(after[i - 1].0@ == k);
            }
        }
    }
    assert forall|k: Seq<u8>| has_entry(after, k) implies entries_map(after)[k] == entries_map(
        entries,
    )[k] by {
        let i = entry_index(after, k);
        lemma_entry_at(after, i);
        let oi = if i < at {
            i
        } else {
            i + 1
        };
        lemma_entry_at(entries, oi);
    }
    assert(entries_map(after) =~= entries_map(entries).remove(gone));
}

/// A list without repeated groups has as many entries as its map has keys.
proof fn lemma_entries_len<B>(entries: Seq<(GroupID, B)>)
    requires
        distinct_groups(entries),
    ensures
        entries_map(entries).dom().finite(),
        entries_map(entries).len() == entries.len(),
    decreases entries.len(),
{
    if entries.len() == 0 {
        assert(entries_map(entries).dom() =~= Set::<Seq<u8>>::empty());
    } else {
        let front = entries.drop_last();
        let k = entries.last().0@;
        assert(forall|i: int| 0 <= i < front.len() ==> front[i] == entries[i]);
        assert(distinct_groups(front));
        lemma_entries_len(front);
        assert(!has_entry(front, k)) by {
            if has_entry(front, k) {
                let i = entry_index(front, k);
                assert(entries[i].0@ == entries[entries.len() - 1].0@);
            }
        }
        assert(entries_map(entries).dom() =~= entries_map(front).dom().insert(k)) by {
            assert forall|q: Seq<u8>| has_entry(entries, q) <==> (has_entry(front, q) || q
                == k) by {
                if has_entry(entries, q) {
                    let i = entry_index(entries, q);
                    if i < front.len() {
                        assert(front[i].0@ == q);
                    }
                }
                if has_entry(front, q) {
                    let i = entry_index(front, q);
                    assert(entries[i].0@ == q);
                }
                if q == k {
                    assert(entries[entries.len() - 1].0@ == q);
                }
            }
        }
    }
}

} // verus!
