use vstd::prelude::*;

use super::codec::{encode_frame, frame_bytes, HeadView, P2PHead};
use super::content::P2PContent;
use crate::primitives::types::SocketAddress;

verus! {

/// The most bytes that go into one datagram.
pub const MAX_DATAGRAM: usize = 65500;

/// A frame between the session and the P2P router: the header, the content
/// and the remote socket.
#[derive(Clone)]
pub struct P2PMessage(pub P2PHead, pub P2PContent, pub SocketAddress);

/// A frame that waits to be written: the header, the serialized body and
/// the socket to write to.
pub struct Waiting {
    pub head: P2PHead,
    pub body: Vec<u8>,
    pub socket: SocketAddress,
}

/// One write to the socket: the datagram to send now, and what is left of
/// the frame to send to the same socket once this write is done.
pub struct Transmit {
    pub now: Vec<u8>,
    pub next: Vec<u8>,
    pub socket: SocketAddress,
}

/// The first datagram of `bytes`: all of them, or the first 65,500.
pub open spec fn first_datagram(bytes: Seq<u8>) -> Seq<u8> {
    if bytes.len() > 65500 {
        bytes.subrange(0, 65500)
    } else {
        bytes
    }
}

/// What is left of `bytes` behind the first datagram.
pub open spec fn later_datagrams(bytes: Seq<u8>) -> Seq<u8> {
    if bytes.len() > 65500 {
        bytes.subrange(65500, bytes.len() as int)
    } else {
        Seq::empty()
    }
}

/// The datagrams that carry `bytes`, in the order in which they are sent.
pub open spec fn datagrams(bytes: Seq<u8>) -> Seq<Seq<u8>>
    decreases bytes.len(),
{
    if bytes.len() > 65500 {
        seq![first_datagram(bytes)] + datagrams(later_datagrams(bytes))
    } else {
        seq![bytes]
    }
}

/// `parts` one after the other.
pub open spec fn joined(parts: Seq<Seq<u8>>) -> Seq<u8>
    decreases parts.len(),
{
    if parts.len() == 0 {
        Seq::empty()
    } else {
        parts[0] + joined(parts.drop_first())
    }
}

/// Cutting a byte string into datagrams loses nothing and reorders nothing;
/// no datagram is longer than 65,500 bytes, and all but the last are
/// exactly that long.
pub proof fn lemma_datagrams(bytes: Seq<u8>)
    ensures
        joined(datagrams(bytes)) == bytes,
        datagrams(bytes).len() >= 1,
        forall|i: int|
            0 <= i < datagrams(bytes).len() ==> (#[trigger] datagrams(bytes)[i]).len() <= 65500,
        forall|i: int|
            0 <= i < datagrams(bytes).len() - 1 ==> (#[trigger] datagrams(bytes)[i]).len()
                == 65500,
    decreases bytes.len(),
{
    let parts = datagrams(bytes);
    if bytes.len() > 65500 {
        let rest = later_datagrams(bytes);
        lemma_datagrams(rest);
        assert(parts.drop_first() =~= datagrams(rest));
        assert(joined(parts) =~= bytes);
        assert forall|i: int| 0 <= i < parts.len() implies (#[trigger] parts[i]).len()
            <= 65500 by {
            if i > 0 {
                assert(parts[i] == datagrams(rest)[i - 1]);
            }
        }
        assert forall|i: int| 0 <= i < parts.len() - 1 implies (#[trigger] parts[i]).len()
            == 65500 by {
            if i > 0 {
                assert(parts[i] == datagrams(rest)[i - 1]);
            }
        }
    } else {
        assert(parts.drop_first() =~= Seq::<Seq<u8>>::empty());
        assert(joined(parts.drop_first()) =~= Seq::<u8>::empty());
        assert(joined(parts) =~= bytes);
    }
}

/// Splits off the first datagram: at most 65,500 bytes now, the rest later.
pub fn split_datagram(bytes: Vec<u8>) -> (r: (Vec<u8>, Vec<u8>))
    ensures
        r.0@ == first_datagram(bytes@),
        r.1@ == later_datagrams(bytes@),
{
    let mut bytes = bytes;
    if bytes.len() > MAX_DATAGRAM {
        let next = bytes.split_off(MAX_DATAGRAM);
        (bytes, next)
    } else {
        (bytes, Vec::new())
    }
}

/// Number of writes that start when `idle` writers are free and `queue`
/// waits: one per writer, one per frame, whichever runs out first.
pub open spec fn started(idle: nat, queue: Seq<Waiting>) -> nat {
    if idle < queue.len() {
        idle
    } else {
        queue.len()
    }
}

/// What writing the frame of a waiting entry starts with.
pub open spec fn transmit_of(w: Waiting) -> (Seq<u8>, Seq<u8>, SocketAddress) {
    let bytes = frame_bytes(w.head@, w.body@);
    (first_datagram(bytes), later_datagrams(bytes), w.socket)
}

impl View for Transmit {
    type V = (Seq<u8>, Seq<u8>, SocketAddress);

    /// The datagram, the remainder and the socket, as plain values.
    open spec fn view(&self) -> (Seq<u8>, Seq<u8>, SocketAddress) {
        (self.now@, self.next@, self.socket)
    }
}

/// The owner of the socket's writers. Frames wait here, first come first
/// served, until a writer is free; a frame longer than one datagram keeps
/// its writer until its last datagram is out.
pub struct P2PSessionActor<A> {
    sinks: usize,
    p2p_addr: Option<A>,
    waitings: Vec<Waiting>,
}

/// Every body fits the header's length field.
pub open spec fn bodies_fit(queue: Seq<Waiting>) -> bool {
    forall|i: int| 0 <= i < queue.len() ==> (#[trigger] queue[i]).body@.len() <= u32::MAX
}

impl<A> P2PSessionActor<A> {
    #[verifier::type_invariant]
    spec fn inv(self) -> bool {
        bodies_fit(self.waitings@)
    }

    /// Number of writers that are free.
    pub closed spec fn idle(&self) -> nat {
        self.sinks as nat
    }

    /// The frames that wait, oldest first.
    pub closed spec fn backlog(&self) -> Seq<Waiting> {
        self.waitings@
    }

    /// The P2P router, once it has registered.
    pub closed spec fn router(&self) -> Option<A> {
        self.p2p_addr
    }

    /// A session with `sinks` free writers, nothing waiting and no router.
    pub fn new(sinks: usize) -> (s: Self)
        ensures
            s.idle() == sinks,
            s.backlog() == Seq::<Waiting>::empty(),
            s.router() == None::<A>,
    {
        P2PSessionActor { sinks, p2p_addr: None, waitings: Vec::new() }
    }

    /// Number of frames that wait.
    pub fn waiting(&self) -> (n: usize)
        ensures
            n == self.backlog().len(),
    {
        self.waitings.len()
    }

    /// Number of writers that are free.
    pub fn sinks(&self) -> (n: usize)
        ensures
            n == self.idle(),
    {
        self.sinks
    }

    /// Records the P2P router that inbound frames are handed to.
    pub fn register(&mut self, addr: A)
        ensures
            final(self).router() == Some(addr),
            final(self).idle() == old(self).idle(),
            final(self).backlog() == old(self).backlog(),
    {
        proof {
            use_type_invariant(&*self);
        }
        self.p2p_addr = Some(addr);
    }

    /// Where an inbound frame goes: to the router if one has registered,
    /// nowhere before that.
    pub fn receive(&self, msg: P2PMessage) -> (r: Option<(&A, P2PMessage)>)
        ensures
            r == match self.router() {
                Some(addr) => Some((&addr, msg)),
                None => None,
            },
    {
        match &self.p2p_addr {
            Some(addr) => Some((addr, msg)),
            None => None,
        }
    }

    /// Starts writing `bytes` to `socket` if a writer is free: the writer is
    /// taken, the first datagram goes out now and the rest is kept for
    /// `sent`. Without a free writer nothing is written.
    pub fn send_udp(&mut self, bytes: Vec<u8>, socket: SocketAddress) -> (r: Option<Transmit>)
        ensures
            final(self).backlog() == old(self).backlog(),
            final(self).router() == old(self).router(),
            old(self).idle() == 0 ==> r.is_none() && final(self).idle() == 0,
            old(self).idle() > 0 ==> r.is_some() && r.unwrap()@ == (
                first_datagram(bytes@),
                later_datagrams(bytes@),
                socket,
            ) && final(self).idle() == old(self).idle() - 1,
    {
        proof {
            use_type_invariant(&*self);
        }
        if self.sinks == 0 {
            return None;
        }
        self.sinks = self.sinks - 1;
        let (now, next) = split_datagram(bytes);
        Some(Transmit { now, next, socket })
    }

    /// Takes note that a write is done and its writer free again. If the
    /// frame has bytes left, the writer goes on with them at once, ahead of
    /// anything that waits.
    pub fn sent(&mut self, next: Vec<u8>, socket: SocketAddress) -> (r: Option<Transmit>)
        requires
            old(self).idle() < usize::MAX,
        ensures
            final(self).backlog() == old(self).backlog(),
            final(self).router() == old(self).router(),
            next@.len() == 0 ==> r.is_none() && final(self).idle() == old(self).idle() + 1,
            next@.len() > 0 ==> r.is_some() && r.unwrap()@ == (
                first_datagram(next@),
                later_datagrams(next@),
                socket,
            ) && final(self).idle() == old(self).idle(),
    {
        proof {
            use_type_invariant(&*self);
        }
        self.sinks = self.sinks + 1;
        if next.len() > 0 {
            self.send_udp(next, socket)
        } else {
            None
        }
    }

    /// Starts as many writes as there are free writers and waiting frames,
    /// oldest frame first. Each started write takes one writer and one frame
    /// from the front of the queue; the frame's header gets the length of
    /// its body.
    pub fn drain(&mut self) -> (out: Vec<Transmit>)
        ensures
            final(self).router() == old(self).router(),
            out@.len() == started(old(self).idle(), old(self).backlog()),
            forall|i: int|
                0 <= i < out@.len() ==> (#[trigger] out@[i])@ == transmit_of(old(self).backlog()[i]),
            final(self).backlog() == old(self).backlog().skip(out@.len() as int),
            final(self).idle() == old(self).idle() - out@.len(),
    {
        proof {
            use_type_invariant(&*self);
        }
        let ghost all = self.waitings@;
        let mut queue: Vec<Waiting> = Vec::new();
        core::mem::swap(&mut self.waitings, &mut queue);
        let mut out: Vec<Transmit> = Vec::new();
        assert(queue@ =~= all.skip(0));
        while self.sinks > 0 && queue.len() > 0
            invariant
                bodies_fit(all),
                self.waitings@.len() == 0,
                self.p2p_addr == old(self).p2p_addr,
                out@.len() <= all.len(),
                out@.len() <= old(self).sinks,
                self.sinks == old(self).sinks - out@.len(),
                queue@ == all.skip(out@.len() as int),
                forall|i: int| 0 <= i < out@.len() ==> (#[trigger] out@[i])@ == transmit_of(all[i]),
            decreases queue@.len(),
        {
            let ghost k = out@.len() as int;
            let w = queue.remove(0);
            assert(w == all[k]);
            assert(queue@ =~= all.skip(k + 1));
            let mut w_head = w.head;
            let bytes = encode_frame(&mut w_head, w.body.as_slice());
            let (now, next) = split_datagram(bytes);
            out.push(Transmit { now, next, socket: w.socket });
            self.sinks = self.sinks - 1;
        }
        assert(bodies_fit(queue@)) by {
            assert forall|i: int| 0 <= i < queue@.len() implies (#[trigger] queue@[i]).body@.len()
                <= u32::MAX by {
                assert(queue@[i] == all[i + out@.len()]);
            }
        }
        self.waitings = queue;
        out
    }

    /// Queues a frame behind those that wait, and then starts as many
    /// writes as there are free writers and waiting frames, oldest first.
    pub fn handle(&mut self, head: P2PHead, body: Vec<u8>, socket: SocketAddress) -> (out: Vec<
        Transmit,
    >)
        requires
            body@.len() <= u32::MAX,
        ensures
            final(self).router() == old(self).router(),
            ({
                let queue = old(self).backlog().push(Waiting { head, body, socket });
                &&& out@.len() == started(old(self).idle(), queue)
                &&& forall|i: int|
                    0 <= i < out@.len() ==> (#[trigger] out@[i])@ == transmit_of(queue[i])
                &&& final(self).backlog() == queue.skip(out@.len() as int)
                &&& final(self).idle() == old(self).idle() - out@.len()
            }),
    {
        proof {
            use_type_invariant(&*self);
        }
        let ghost before = self.waitings@;
        let mut queue: Vec<Waiting> = Vec::new();
        core::mem::swap(&mut self.waitings, &mut queue);
        queue.push(Waiting { head, body, socket });
        assert(bodies_fit(queue@)) by {
            assert forall|i: int| 0 <= i < queue@.len() implies (#[trigger] queue@[i]).body@.len()
                <= u32::MAX by {
                if i < before.len() {
                    assert(queue@[i] == before[i]);
                }
            }
        }
        self.waitings = queue;
        self.drain()
    }
}

} // verus!
