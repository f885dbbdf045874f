use byteorder::{BigEndian, ByteOrder};
use std::collections::HashMap;
use vstd::prelude::*;
use vstd::slice::slice_subrange;

use crate::crypto::hash::H256;
use crate::crypto::keypair::{PublicKey, Signature};

verus! {

broadcast use {
    H256::lemma_len,
    PublicKey::lemma_len,
    Signature::lemma_len,
    vstd::std_specs::hash::group_hash_axioms,
};

/// Length of an encoded frame header.
pub const HEAD_LENGTH: usize = 166;

/// Offset of the recipient's key inside a header.
pub const BEFORE_TO_LENGTH: usize = 70;

/// Offset of the signature inside a header.
pub const BEFORE_SIGN_LENGTH: usize = 102;

/// The two bytes of `n`, most significant first.
pub open spec fn be_u16_bytes(n: u16) -> Seq<u8> {
    seq![(n / 0x100) as u8, (n % 0x100) as u8]
}

/// The number that the first two bytes of `b` spell, most significant first.
pub open spec fn be_u16_value(b: Seq<u8>) -> int {
    b[0] * 0x100 + b[1]
}

/// The four bytes of `n`, most significant first.
pub open spec fn be_u32_bytes(n: u32) -> Seq<u8> {
    seq![
        (n / 0x100_0000) as u8,
        (n / 0x1_0000 % 0x100) as u8,
        (n / 0x100 % 0x100) as u8,
        (n % 0x100) as u8,
    ]
}

/// The number that the first four bytes of `b` spell, most significant first.
pub open spec fn be_u32_value(b: Seq<u8>) -> int {
    ((b[0] * 0x100 + b[1]) * 0x100 + b[2]) * 0x100 + b[3]
}

/// The number that the first eight bytes of `b` spell, most significant first.
pub open spec fn be_u64_value(b: Seq<u8>) -> int {
    be_u32_value(b.subrange(0, 4)) * 0x1_0000_0000 + be_u32_value(b.subrange(4, 8))
}

/// `byteorder::BigEndian::read_u64`: the number spelled by the first eight
/// bytes of `buf`. It panics on a shorter buffer, which `requires` excludes.
#[verifier::external_body]
fn u64_from_be(buf: &[u8]) -> (n: u64)
    requires
        buf@.len() >= 8,
    ensures
        n == be_u64_value(buf@),
{
    BigEndian::read_u64(buf)
}

/// `byteorder::BigEndian::write_u16` on a fresh two-byte buffer: the result
/// holds the big-endian bytes of `n`.
#[verifier::external_body]
fn u16_to_be(n: u16) -> (out: [u8; 2])
    ensures
        out@ == be_u16_bytes(n),
{
    let mut out = [0u8; 2];
    BigEndian::write_u16(&mut out, n);
    out
}

/// `byteorder::BigEndian::write_u32` on a fresh four-byte buffer: the result
/// holds the big-endian bytes of `n`.
#[verifier::external_body]
fn u32_to_be(n: u32) -> (out: [u8; 4])
    ensures
        out@ == be_u32_bytes(n),
{
    let mut out = [0u8; 4];
    BigEndian::write_u32(&mut out, n);
    out
}

/// `byteorder::BigEndian::read_u16`: the number spelled by the first two
/// bytes of `buf`. It panics on a shorter buffer, which `requires` excludes.
#[verifier::external_body]
fn u16_from_be(buf: &[u8]) -> (n: u16)
    requires
        buf@.len() >= 2,
    ensures
        n == be_u16_value(buf@),
{
    BigEndian::read_u16(buf)
}

/// `byteorder::BigEndian::read_u32`: the number spelled by the first four
/// bytes of `buf`. It panics on a shorter buffer, which `requires` excludes.
#[verifier::external_body]
fn u32_from_be(buf: &[u8]) -> (n: u32)
    requires
        buf@.len() >= 4,
    ensures
        n == be_u32_value(buf@),
{
    BigEndian::read_u32(buf)
}

/// Reading back the big-endian bytes of a 16-bit number gives the number.
pub proof fn lemma_be_u16_round_trip(n: u16)
    ensures
        be_u16_bytes(n).len() == 2,
        be_u16_value(be_u16_bytes(n)) == n,
{
}

/// Reading back the big-endian bytes of a 32-bit number gives the number.
pub proof fn lemma_be_u32_round_trip(n: u32)
    ensures
        be_u32_bytes(n).len() == 4,
        be_u32_value(be_u32_bytes(n)) == n,
{
}

/// Copies `src` over `dst[at..at + src.len()]` and leaves the rest alone.
fn put(dst: &mut [u8; 166], at: usize, src: &[u8])
    requires
        at + src@.len() <= 166,
    ensures
        final(dst)@ == old(dst)@.subrange(0, at as int) + src@ + old(dst)@.subrange(
            at + src@.len(),
            166,
        ),
{
    let mut i: usize = 0;
    while i < src.len()
        invariant
            i <= src@.len(),
            at + src@.len() <= 166,
            dst@ == old(dst)@.subrange(0, at as int) + src@.subrange(0, i as int) + old(
                dst,
            )@.subrange(at + i, 166),
        decreases src@.len() - i,
    {
        dst[at + i] = src[i];
        assert(dst@ =~= old(dst)@.subrange(0, at as int) + src@.subrange(0, i + 1) + old(
            dst,
        )@.subrange(at + i + 1, 166));
        i += 1;
    }
    assert(src@.subrange(0, i as int) =~= src@);
}

/// What a frame header says: the body length, the protocol version, and the
/// bytes of the group, of both peers and of the signature.
pub ghost struct HeadView {
    pub len: u32,
    pub ver: u16,
    pub gid: Seq<u8>,
    pub from: Seq<u8>,
    pub to: Seq<u8>,
    pub sign: Seq<u8>,
}

impl HeadView {
    /// The identifiers and the signature have their fixed lengths.
    pub open spec fn wf(self) -> bool {
        &&& self.gid.len() == 32
        &&& self.from.len() == 32
        &&& self.to.len() == 32
        &&& self.sign.len() == 64
    }

    /// The bytes that are signed ahead of the body: everything in the header
    /// but the signature.
    pub open spec fn unsigned_bytes(self) -> Seq<u8> {
        be_u32_bytes(self.len) + be_u16_bytes(self.ver) + self.gid + self.from + self.to
    }

    /// The 166 bytes of the header on the wire.
    pub open spec fn bytes(self) -> Seq<u8> {
        self.unsigned_bytes() + self.sign
    }

    /// The header that the first 166 bytes of `b` spell.
    pub open spec fn parse(b: Seq<u8>) -> HeadView {
        HeadView {
            len: be_u32_value(b.subrange(0, 4)) as u32,
            ver: be_u16_value(b.subrange(4, 6)) as u16,
            gid: b.subrange(6, 38),
            from: b.subrange(38, 70),
            to: b.subrange(70, 102),
            sign: b.subrange(102, 166),
        }
    }
}

/// The fixed header that precedes every frame body.
#[derive(Clone, Copy, Debug)]
pub struct P2PHead {
    len: u32,
    pub ver: u16,
    pub gid: H256,
    pub from: PublicKey,
    pub to: PublicKey,
    pub sign: Signature,
}

impl View for P2PHead {
    type V = HeadView;

    closed spec fn view(&self) -> HeadView {
        HeadView {
            len: self.len,
            ver: self.ver,
            gid: self.gid@,
            from: self.from@,
            to: self.to@,
            sign: self.sign@,
        }
    }
}

impl P2PHead {
    /// The group identifier that the header holds.
    pub closed spec fn gid_spec(&self) -> H256 {
        self.gid
    }

    /// The sender's key that the header holds.
    pub closed spec fn from_spec(&self) -> PublicKey {
        self.from
    }

    /// The recipient's key that the header holds.
    pub closed spec fn to_spec(&self) -> PublicKey {
        self.to
    }

    /// The signature that the header holds.
    pub closed spec fn sign_spec(&self) -> Signature {
        self.sign
    }

    /// The view of a header is always well formed, and shows the bytes of
    /// the values that the header holds.
    pub broadcast proof fn lemma_view(self)
        ensures
            #![trigger self@]
            self@.wf(),
            self@.gid == self.gid_spec()@,
            self@.from == self.from_spec()@,
            self@.to == self.to_spec()@,
            self@.sign == self.sign_spec()@,
    {
    }

    /// The group that the frame belongs to.
    pub fn group(&self) -> (g: &H256)
        ensures
            *g == self.gid_spec(),
    {
        &self.gid
    }

    /// The sender's public key.
    pub fn from(&self) -> (k: &PublicKey)
        ensures
            *k == self.from_spec(),
    {
        &self.from
    }

    /// The recipient's public key.
    pub fn to(&self) -> (k: &PublicKey)
        ensures
            *k == self.to_spec(),
    {
        &self.to
    }

    /// The signature over the header's other fields and the body.
    pub fn signature(&self) -> (s: &Signature)
        ensures
            *s == self.sign_spec(),
    {
        &self.sign
    }

    /// The protocol version, which selects the body's schema.
    pub fn version(&self) -> (v: u16)
        ensures
            v == self@.ver,
    {
        self.ver
    }

    /// The body length that the header announces.
    pub fn len(&self) -> (n: u32)
        ensures
            n == self@.len,
    {
        self.len
    }

    /// A header for an empty body, with an all-zero signature.
    pub fn new(ver: u16, gid: H256, from: PublicKey, to: PublicKey) -> (h: P2PHead)
        ensures
            h.gid_spec() == gid,
            h.from_spec() == from,
            h.to_spec() == to,
            h@ == (HeadView {
                len: 0,
                ver: ver,
                gid: gid@,
                from: from@,
                to: to@,
                sign: Seq::new(64, |i: int| 0u8),
            }),
    {
        let len: u32 = 0;
        let sign = Signature::default();

        P2PHead { len, ver, gid, from, to, sign }
    }

    /// Sets the announced body length and nothing else.
    pub fn update_len(&mut self, len: u32)
        ensures
            final(self)@ == (HeadView { len: len, ..old(self)@ }),
            final(self).gid_spec() == old(self).gid_spec(),
            final(self).from_spec() == old(self).from_spec(),
            final(self).to_spec() == old(self).to_spec(),
            final(self).sign_spec() == old(self).sign_spec(),
    {
        self.len = len
    }

    /// Sets the signature and nothing else.
    pub fn update_signature(&mut self, sign: Signature)
        ensures
            final(self)@ == (HeadView { sign: sign@, ..old(self)@ }),
            final(self).gid_spec() == old(self).gid_spec(),
            final(self).from_spec() == old(self).from_spec(),
            final(self).to_spec() == old(self).to_spec(),
            final(self).sign_spec() == sign,
    {
        self.sign = sign;
    }

    /// The header on the wire: 166 bytes, integers big-endian.
    pub fn encode(&self) -> (bytes: [u8; 166])
        ensures
            bytes@ == self@.bytes(),
    {
        let mut bytes = [0u8; 166];
        let l_bytes = u32_to_be(self.len);
        put(&mut bytes, 0, l_bytes.as_slice());
        let v_bytes = u16_to_be(self.ver);
        put(&mut bytes, 4, v_bytes.as_slice());
        let g_bytes = self.gid.to_bytes();
        put(&mut bytes, 6, g_bytes.as_slice());
        let f_bytes = self.from.to_bytes();
        put(&mut bytes, 38, f_bytes.as_slice());
        let t_bytes = self.to.to_bytes();
        put(&mut bytes, BEFORE_TO_LENGTH, t_bytes.as_slice());
        let s_bytes = self.sign.to_bytes();
        put(&mut bytes, BEFORE_SIGN_LENGTH, s_bytes.as_slice());
        assert(bytes@ =~= self@.bytes());
        bytes
    }

    /// Reads a header from the first 166 bytes of `bytes`.
    pub fn decode(bytes: &[u8]) -> (h: P2PHead)
        requires
            bytes@.len() >= 166,
        ensures
            h@ == HeadView::parse(bytes@),
    {
        let len = u32_from_be(slice_subrange(bytes, 0, 4));
        let ver = u16_from_be(slice_subrange(bytes, 4, 6));
        let gid = match H256::from_bytes(slice_subrange(bytes, 6, 38)) {
            Some(g) => g,
            None => H256::default(),
        };
        let from = match PublicKey::from_bytes(slice_subrange(bytes, 38, BEFORE_TO_LENGTH)) {
            Some(k) => k,
            None => PublicKey::default(),
        };
        let to = match PublicKey::from_bytes(
            slice_subrange(bytes, BEFORE_TO_LENGTH, BEFORE_SIGN_LENGTH),
        ) {
            Some(k) => k,
            None => PublicKey::default(),
        };
        let sign = match Signature::from_bytes(
            slice_subrange(bytes, BEFORE_SIGN_LENGTH, HEAD_LENGTH),
        ) {
            Some(s) => s,
            None => Signature::default(),
        };

        P2PHead { len, ver, gid, from, to, sign }
    }
}

impl Default for P2PHead {
    fn default() -> (h: P2PHead)
        ensures
            h@ == (HeadView {
                len: 0,
                ver: 0,
                gid: Seq::new(32, |i: int| 0u8),
                from: Seq::new(32, |i: int| 0u8),
                to: Seq::new(32, |i: int| 0u8),
                sign: Seq::new(64, |i: int| 0u8),
            }),
    {
        P2PHead::new(0, H256::default(), PublicKey::default(), PublicKey::default())
    }
}

/// A header survives the wire: parsing the bytes of a well-formed header
/// gives the header back, whatever follows those bytes.
pub proof fn lemma_head_round_trip(v: HeadView, rest: Seq<u8>)
    requires
        v.wf(),
    ensures
        v.bytes().len() == 166,
        HeadView::parse(v.bytes() + rest) == v,
{
    let b = v.bytes() + rest;
    lemma_be_u32_round_trip(v.len);
    lemma_be_u16_round_trip(v.ver);
    assert(b.subrange(0, 4) =~= be_u32_bytes(v.len));
    assert(b.subrange(4, 6) =~= be_u16_bytes(v.ver));
    assert(b.subrange(6, 38) =~= v.gid);
    assert(b.subrange(38, 70) =~= v.from);
    assert(b.subrange(70, 102) =~= v.to);
    assert(b.subrange(102, 166) =~= v.sign);
}

/// Encoding a header and decoding the result gives the same header.
pub proof fn lemma_decode_encode(h: P2PHead)
    ensures
        HeadView::parse(h@.bytes()) == h@,
{
    lemma_head_round_trip(h@, Seq::empty());
    assert(h@.bytes() + Seq::<u8>::empty() =~= h@.bytes());
}

/// Appends `src` to `dst`.
pub(crate) fn extend(dst: &mut Vec<u8>, src: &[u8])
    ensures
        final(dst)@ == old(dst)@ + src@,
{
    let mut i: usize = 0;
    while i < src.len()
        invariant
            i <= src@.len(),
            dst@ == old(dst)@ + src@.subrange(0, i as int),
        decreases src@.len() - i,
    {
        dst.push(src[i]);
        assert(dst@ =~= old(dst)@ + src@.subrange(0, i + 1));
        i += 1;
    }
    assert(src@.subrange(0, i as int) =~= src@);
}

/// The frame that a datagram holds, if it holds one: the header that its
/// first 166 bytes spell and the body that the header announces. Bytes
/// behind the body are not part of the frame.
pub open spec fn datagram_frame(src: Seq<u8>) -> Option<(HeadView, Seq<u8>)> {
    if src.len() >= 166 && src.len() >= 166 + HeadView::parse(src).len {
        let head = HeadView::parse(src);
        Some((head, src.subrange(166, 166 + head.len)))
    } else {
        None
    }
}

/// Splits one datagram into header and body bytes. A datagram that is
/// shorter than a header, or shorter than the header and the body that it
/// announces, holds no frame.
pub fn decode_datagram(src: &[u8]) -> (r: Option<(P2PHead, Vec<u8>)>)
    ensures
        match datagram_frame(src@) {
            Some((head, body)) => r.is_some() && r.unwrap().0@ == head && r.unwrap().1@ == body,
            None => r.is_none(),
        },
{
    if src.len() < HEAD_LENGTH {
        return None;
    }
    let head = P2PHead::decode(src);
    let size = head.len as usize;
    if src.len() - HEAD_LENGTH < size {
        return None;
    }
    let mut body: Vec<u8> = Vec::new();
    extend(&mut body, slice_subrange(src, HEAD_LENGTH, HEAD_LENGTH + size));
    Some((head, body))
}

/// The bytes of a frame: the header, announcing the body's length, and then
/// the body.
pub open spec fn frame_bytes(head: HeadView, body: Seq<u8>) -> Seq<u8> {
    (HeadView { len: body.len() as u32, ..head }).bytes() + body
}

/// The bytes that a frame's signature covers: the header without its
/// signature, announcing the body's length, and then the body.
pub open spec fn signed_bytes(head: HeadView, body: Seq<u8>) -> Seq<u8> {
    (HeadView { len: body.len() as u32, ..head }).unsigned_bytes() + body
}

/// Writes a frame: sets the header's length to that of `body` and returns
/// the header's bytes followed by the body.
pub fn encode_frame(head: &mut P2PHead, body: &[u8]) -> (bytes: Vec<u8>)
    requires
        body@.len() <= u32::MAX,
    ensures
        final(head)@ == (HeadView { len: body@.len() as u32, ..old(head)@ }),
        bytes@ == frame_bytes(old(head)@, body@),
{
    head.update_len(body.len() as u32);
    let head_bytes = head.encode();
    let mut bytes: Vec<u8> = Vec::new();
    extend(&mut bytes, head_bytes.as_slice());
    extend(&mut bytes, body);
    bytes
}

/// The bytes to sign for a frame: sets the header's length to that of `body`
/// and returns the header's first 102 bytes followed by the body.
pub fn signing_payload(head: &mut P2PHead, body: &[u8]) -> (bytes: Vec<u8>)
    requires
        body@.len() <= u32::MAX,
    ensures
        final(head)@ == (HeadView { len: body@.len() as u32, ..old(head)@ }),
        bytes@ == signed_bytes(old(head)@, body@),
{
    head.update_len(body.len() as u32);
    let head_bytes = head.encode();
    let mut bytes: Vec<u8> = Vec::new();
    extend(&mut bytes, slice_subrange(head_bytes.as_slice(), 0, BEFORE_SIGN_LENGTH));
    assert(head@.bytes().subrange(0, 102) =~= head@.unsigned_bytes());
    extend(&mut bytes, body);
    bytes
}

/// A frame survives the wire: the datagram that holds the bytes of a frame,
/// and nothing else or anything behind them, yields the header with the
/// body's length and the body.
pub proof fn lemma_frame_round_trip(head: HeadView, body: Seq<u8>, rest: Seq<u8>)
    requires
        head.wf(),
        body.len() <= u32::MAX,
    ensures
        datagram_frame(frame_bytes(head, body) + rest) == Some(
            (HeadView { len: body.len() as u32, ..head }, body),
        ),
{
    let sized = HeadView { len: body.len() as u32, ..head };
    let src = frame_bytes(head, body) + rest;
    lemma_head_round_trip(sized, body + rest);
    assert(src =~= sized.bytes() + (body + rest));
    assert(src.subrange(166, 166 + sized.len) =~= body);
}

/// A datagram cut short holds no frame: with fewer bytes than the header
/// and the announced body take, nothing is decoded.
pub proof fn lemma_truncated_frame(head: HeadView, body: Seq<u8>, n: int)
    requires
        head.wf(),
        body.len() <= u32::MAX,
        0 <= n < 166 + body.len(),
    ensures
        datagram_frame(frame_bytes(head, body).subrange(0, n)) is None,
{
    let sized = HeadView { len: body.len() as u32, ..head };
    let whole = frame_bytes(head, body);
    let cut = whole.subrange(0, n);
    if n >= 166 {
        lemma_head_round_trip(sized, body.subrange(0, n - 166));
        assert(cut =~= sized.bytes() + body.subrange(0, n - 166));
    }
}

/// Length of the three tags that precede the payload of a fragment.
pub const TAGS_LENGTH: usize = 24;

/// The tag at bytes `at..at + 8` of a fragment, as a number.
pub open spec fn tag_at(src: Seq<u8>, at: int) -> u64 {
    be_u64_value(src.subrange(at, at + 8)) as u64
}

/// What the table holds after a fragment took its neighbours out.
pub open spec fn table_drained(table: Map<u64, Seq<u8>>, src: Seq<u8>) -> Map<u64, Seq<u8>> {
    table.remove(tag_at(src, 0)).remove(tag_at(src, 16))
}

/// The bytes gathered for a fragment: what was pending under its `prev`
/// tag, then its payload, then what was pending under its `next` tag.
pub open spec fn gathered(table: Map<u64, Seq<u8>>, src: Seq<u8>) -> Seq<u8> {
    let prev = tag_at(src, 0);
    let next = tag_at(src, 16);
    let before = if table.contains_key(prev) {
        table[prev]
    } else {
        Seq::empty()
    };
    let after = if table.remove(prev).contains_key(next) {
        table[next]
    } else {
        Seq::empty()
    };
    before + src.subrange(24, src.len() as int) + after
}

/// Whether a fragment completes a frame: it is the head of its chain (its
/// `prev` tag equals its own) and the gathered bytes hold a whole frame.
pub open spec fn completes(table: Map<u64, Seq<u8>>, src: Seq<u8>) -> bool {
    &&& src.len() >= 24
    &&& tag_at(src, 0) == tag_at(src, 8)
    &&& datagram_frame(gathered(table, src)) is Some
}

/// What one fragment does to the table, and the frame it completes, if
/// any. A fragment shorter than its three tags changes nothing. Otherwise
/// its neighbours leave the table; then either the frame comes out, or the
/// gathered bytes wait under the fragment's own tag.
pub open spec fn decode_step(table: Map<u64, Seq<u8>>, src: Seq<u8>) -> (
    Map<u64, Seq<u8>>,
    Option<(HeadView, Seq<u8>)>,
) {
    if src.len() < 24 {
        (table, None)
    } else if completes(table, src) {
        (table_drained(table, src), datagram_frame(gathered(table, src)))
    } else {
        (table_drained(table, src).insert(tag_at(src, 8), gathered(table, src)), None)
    }
}

/// A fragment: the three tags, then the payload.
pub open spec fn tagged(prev: Seq<u8>, me: Seq<u8>, next: Seq<u8>, payload: Seq<u8>) -> Seq<u8> {
    prev + me + next + payload
}

/// The fragments that carry `bytes` in pieces of at most `size` bytes, all
/// under the one tag `tag`, in the order in which they are sent.
pub open spec fn fragments_spec(bytes: Seq<u8>, tag: Seq<u8>, size: int) -> Seq<Seq<u8>>
    decreases bytes.len(),
{
    if size <= 0 || bytes.len() <= size {
        seq![tagged(tag, tag, tag, bytes)]
    } else {
        seq![tagged(tag, tag, tag, bytes.subrange(0, size))] + fragments_spec(
            bytes.subrange(size, bytes.len() as int),
            tag,
            size,
        )
    }
}

/// The table after the fragments `pieces` came in, in this order.
pub open spec fn fed(table: Map<u64, Seq<u8>>, pieces: Seq<Seq<u8>>) -> Map<u64, Seq<u8>>
    decreases pieces.len(),
{
    if pieces.len() == 0 {
        table
    } else {
        fed(decode_step(table, pieces[0]).0, pieces.drop_first())
    }
}

/// What each of the fragments `pieces` yielded as they came in, in this
/// order.
pub open spec fn yields(table: Map<u64, Seq<u8>>, pieces: Seq<Seq<u8>>) -> Seq<
    Option<(HeadView, Seq<u8>)>,
>
    decreases pieces.len(),
{
    if pieces.len() == 0 {
        Seq::empty()
    } else {
        seq![decode_step(table, pieces[0]).1] + yields(
            decode_step(table, pieces[0]).0,
            pieces.drop_first(),
        )
    }
}

/// The most payload bytes in one fragment: with its tags, a fragment fills
/// a datagram of 65,500 bytes.
pub const FRAGMENT_PAYLOAD: usize = 65476;

/// Builds one fragment from its tags and its payload.
pub fn fragment(prev: &[u8; 8], me: &[u8; 8], next: &[u8; 8], payload: &[u8]) -> (out: Vec<u8>)
    ensures
        out@ == tagged(prev@, me@, next@, payload@),
{
    let mut out: Vec<u8> = Vec::new();
    extend(&mut out, prev.as_slice());
    extend(&mut out, me.as_slice());
    extend(&mut out, next.as_slice());
    extend(&mut out, payload);
    out
}

/// The byte strings that `v` holds.
pub open spec fn views(v: Seq<Vec<u8>>) -> Seq<Seq<u8>> {
    v.map_values(|x: Vec<u8>| x@)
}

/// Cuts `bytes` into fragments of at most 65,476 payload bytes, all under
/// the tag `tag`, in the order in which they are to be sent.
pub fn fragments(bytes: &[u8], tag: &[u8; 8]) -> (out: Vec<Vec<u8>>)
    ensures
        views(out@) == fragments_spec(bytes@, tag@, 65476),
{
    let mut out: Vec<Vec<u8>> = Vec::new();
    let mut at: usize = 0;
    assert(bytes@.subrange(0, bytes@.len() as int) =~= bytes@);
    assert(views(out@) =~= Seq::<Seq<u8>>::empty());
    while bytes.len() - at > FRAGMENT_PAYLOAD
        invariant
            at <= bytes@.len(),
            views(out@) + fragments_spec(
                bytes@.subrange(at as int, bytes@.len() as int),
                tag@,
                65476,
            ) == fragments_spec(bytes@, tag@, 65476),
        decreases bytes@.len() - at,
    {
        let ghost rest = bytes@.subrange(at as int, bytes@.len() as int);
        let ghost before = views(out@);
        let piece = fragment(tag, tag, tag, slice_subrange(bytes, at, at + FRAGMENT_PAYLOAD));
        out.push(piece);
        proof {
            assert(rest.subrange(0, 65476) =~= bytes@.subrange(at as int, at + 65476));
            assert(rest.subrange(65476, rest.len() as int) =~= bytes@.subrange(
                at + 65476,
                bytes@.len() as int,
            ));
            assert(views(out@) =~= before.push(piece@));
            assert(before.push(piece@) + fragments_spec(
                bytes@.subrange(at + 65476, bytes@.len() as int),
                tag@,
                65476,
            ) =~= before + fragments_spec(rest, tag@, 65476));
        }
        at = at + FRAGMENT_PAYLOAD;
    }
    let ghost before = views(out@);
    let piece = fragment(tag, tag, tag, slice_subrange(bytes, at, bytes.len()));
    out.push(piece);
    assert(views(out@) =~= before.push(piece@));
    out
}

/// Reassembles frames from tagged fragments. Each fragment starts with the
/// tags `(prev, self, next)`, eight bytes each; buffers that wait for their
/// neighbours are kept by tag.
pub struct P2PCodec {
    table: HashMap<u64, Vec<u8>>,
}

impl View for P2PCodec {
    type V = Map<u64, Seq<u8>>;

    /// The pending buffers, by the tag under which each is kept.
    closed spec fn view(&self) -> Map<u64, Seq<u8>> {
        Map::new(|k: u64| self.table@.contains_key(k), |k: u64| self.table@[k]@)
    }
}

impl Default for P2PCodec {
    fn default() -> (c: P2PCodec)
        ensures
            c@ == Map::<u64, Seq<u8>>::empty(),
    {
        let c = P2PCodec { table: HashMap::new() };
        assert(c@ =~= Map::<u64, Seq<u8>>::empty());
        c
    }
}

impl P2PCodec {
    /// Number of pending buffers.
    pub fn pending(&self) -> (n: usize)
        ensures
            n == self@.len(),
    {
        assert(self@.dom() =~= self.table@.dom());
        self.table.len()
    }

    /// Drops every pending buffer.
    pub fn clear(&mut self)
        ensures
            final(self)@ == Map::<u64, Seq<u8>>::empty(),
    {
        self.table.clear();
        assert(self@ =~= Map::<u64, Seq<u8>>::empty());
    }

    /// Drops the buffer kept under `tag`, if there is one, and says whether
    /// there was one.
    pub fn evict(&mut self, tag: &[u8; 8]) -> (found: bool)
        ensures
            found == old(self)@.contains_key(tag_at(tag@, 0)),
            final(self)@ == old(self)@.remove(tag_at(tag@, 0)),
    {
        let key = u64_from_be(tag.as_slice());
        assert(tag@.subrange(0, 8) =~= tag@);
        let gone = self.table.remove(&key);
        assert(self@ =~= old(self)@.remove(key));
        gone.is_some()
    }

    /// Writes outgoing bytes behind what `dst` holds. Nothing is added or
    /// changed: framing is done before the bytes get here.
    pub fn encode(&mut self, msg: Vec<u8>, dst: &mut Vec<u8>)
        ensures
            final(dst)@ == old(dst)@ + msg@,
            final(self)@ == old(self)@,
    {
        extend(dst, msg.as_slice());
    }

    /// Takes one fragment. A fragment shorter than its three tags is
    /// dropped. Otherwise the buffers pending under its `prev` and `next`
    /// tags leave the table and are joined round its payload. If the fragment
    /// heads its chain and the joined bytes hold a whole frame, the frame's
    /// header and body are returned; else the joined bytes wait under the
    /// fragment's own tag.
    pub fn decode(&mut self, src: &[u8]) -> (r: Option<(P2PHead, Vec<u8>)>)
        ensures
            final(self)@ == decode_step(old(self)@, src@).0,
            match decode_step(old(self)@, src@).1 {
                Some((head, body)) => r.is_some() && r.unwrap().0@ == head && r.unwrap().1@
                    == body,
                None => r.is_none(),
            },
    {
        if src.len() < TAGS_LENGTH {
            return None;
        }
        let prev_sign = u64_from_be(slice_subrange(src, 0, 8));
        let sign = u64_from_be(slice_subrange(src, 8, 16));
        let next_sign = u64_from_be(slice_subrange(src, 16, 24));
        proof {
            assert(src@.subrange(0, 8).subrange(0, 8) =~= src@.subrange(0, 8));
            assert(src@.subrange(8, 16).subrange(0, 8) =~= src@.subrange(8, 16));
            assert(src@.subrange(16, 24).subrange(0, 8) =~= src@.subrange(16, 24));
        }

        let mut data: Vec<u8> = Vec::new();

        if let Some(prev_data) = self.table.remove(&prev_sign) {
            extend(&mut data, prev_data.as_slice());
        }
        assert(self@ =~= old(self)@.remove(prev_sign));

        extend(&mut data, slice_subrange(src, TAGS_LENGTH, src.len()));

        if let Some(next_data) = self.table.remove(&next_sign) {
            extend(&mut data, next_data.as_slice());
        }
        assert(self@ =~= table_drained(old(self)@, src@));
        assert(data@ =~= gathered(old(self)@, src@));

        if prev_sign == sign {
            if let Some(frame) = decode_datagram(data.as_slice()) {
                return Some(frame);
            }
        }
        let ghost kept = data@;
        self.table.insert(sign, data);
        assert(self@ =~= table_drained(old(self)@, src@).insert(sign, kept));
        None
    }
}

/// The table in which `acc` waits under the tag `t`; nothing waits there
/// while `acc` is empty.
pub open spec fn waiting_under(table: Map<u64, Seq<u8>>, t: u64, acc: Seq<u8>) -> Map<
    u64,
    Seq<u8>,
> {
    if acc.len() == 0 {
        table
    } else {
        table.insert(t, acc)
    }
}

/// One fragment under a single tag joins what waits under that tag: the
/// frame comes out if the joined bytes hold one, else they wait on.
proof fn lemma_single_tag_step(
    table: Map<u64, Seq<u8>>,
    tag: Seq<u8>,
    acc: Seq<u8>,
    payload: Seq<u8>,
)
    requires
        tag.len() == 8,
        !table.contains_key(tag_at(tag, 0)),
    ensures
        decode_step(
            waiting_under(table, tag_at(tag, 0), acc),
            tagged(tag, tag, tag, payload),
        ) == if datagram_frame(acc + payload) is Some {
            (table, datagram_frame(acc + payload))
        } else {
            (table.insert(tag_at(tag, 0), acc + payload), None::<(HeadView, Seq<u8>)>)
        },
{
    let t = tag_at(tag, 0);
    let start = waiting_under(table, t, acc);
    let piece = tagged(tag, tag, tag, payload);
    assert(tag.subrange(0, 8) =~= tag);
    assert(piece.subrange(0, 8) =~= tag);
    assert(piece.subrange(8, 16) =~= tag);
    assert(piece.subrange(16, 24) =~= tag);
    assert(piece.subrange(24, piece.len() as int) =~= payload);
    assert(tag_at(piece, 0) == t);
    assert(tag_at(piece, 8) == t);
    assert(tag_at(piece, 16) == t);
    assert(gathered(start, piece) =~= acc + payload) by {
        if acc.len() == 0 {
            assert(acc + payload =~= Seq::<u8>::empty() + payload);
        }
    }
    assert(table_drained(start, piece) =~= table);
}

/// A frame survives fragmentation: when the fragments of a frame's bytes
/// come in, in order, under a tag that nothing waits under, the last one
/// yields the frame, the others yield nothing, and the table ends as it
/// began.
pub proof fn lemma_fragments_reassemble(
    table: Map<u64, Seq<u8>>,
    head: HeadView,
    body: Seq<u8>,
    tag: Seq<u8>,
    size: int,
)
    requires
        head.wf(),
        body.len() <= u32::MAX,
        tag.len() == 8,
        size > 0,
        !table.contains_key(tag_at(tag, 0)),
    ensures
        fed(table, fragments_spec(frame_bytes(head, body), tag, size)) == table,
        yields(table, fragments_spec(frame_bytes(head, body), tag, size)).len()
            == fragments_spec(frame_bytes(head, body), tag, size).len(),
        yields(table, fragments_spec(frame_bytes(head, body), tag, size)).last() == Some(
            (HeadView { len: body.len() as u32, ..head }, body),
        ),
        forall|i: int|
            0 <= i < fragments_spec(frame_bytes(head, body), tag, size).len() - 1 ==> (
            #[trigger] yields(table, fragments_spec(frame_bytes(head, body), tag, size))[i])
                is None,
{
    let whole = frame_bytes(head, body);
    lemma_head_round_trip(HeadView { len: body.len() as u32, ..head }, Seq::empty());
    assert(Seq::<u8>::empty() + whole =~= whole);
    lemma_reassemble_from(table, head, body, tag, size, Seq::empty(), whole);
    assert(waiting_under(table, tag_at(tag, 0), Seq::empty()) == table);
}

/// The inductive step behind `lemma_fragments_reassemble`: `acc` is what
/// came in so far and waits under the tag, `rest` is what is still to come.
proof fn lemma_reassemble_from(
    table: Map<u64, Seq<u8>>,
    head: HeadView,
    body: Seq<u8>,
    tag: Seq<u8>,
    size: int,
    acc: Seq<u8>,
    rest: Seq<u8>,
)
    requires
        head.wf(),
        body.len() <= u32::MAX,
        tag.len() == 8,
        size > 0,
        !table.contains_key(tag_at(tag, 0)),
        acc + rest == frame_bytes(head, body),
        rest.len() > 0,
    ensures
        fed(waiting_under(table, tag_at(tag, 0), acc), fragments_spec(rest, tag, size)) == table,
        yields(waiting_under(table, tag_at(tag, 0), acc), fragments_spec(rest, tag, size)).len()
            == fragments_spec(rest, tag, size).len(),
        fragments_spec(rest, tag, size).len() >= 1,
        yields(waiting_under(table, tag_at(tag, 0), acc), fragments_spec(rest, tag, size)).last()
            == Some((HeadView { len: body.len() as u32, ..head }, body)),
        forall|i: int|
            0 <= i < fragments_spec(rest, tag, size).len() - 1 ==> (#[trigger] yields(
                waiting_under(table, tag_at(tag, 0), acc),
                fragments_spec(rest, tag, size),
            )[i]) is None,
    decreases rest.len(),
{
    let t = tag_at(tag, 0);
    let whole = frame_bytes(head, body);
    let sized = HeadView { len: body.len() as u32, ..head };
    let start = waiting_under(table, t, acc);
    let pieces = fragments_spec(rest, tag, size);
    let payload = if rest.len() <= size {
        rest
    } else {
        rest.subrange(0, size)
    };
    let piece = tagged(tag, tag, tag, payload);
    assert(pieces[0] == piece);
    lemma_single_tag_step(table, tag, acc, payload);
    lemma_head_round_trip(sized, Seq::empty());
    assert(whole.len() == 166 + body.len());
    if rest.len() <= size {
        lemma_frame_round_trip(head, body, Seq::empty());
        assert(whole + Seq::<u8>::empty() =~= whole);
        assert(decode_step(start, piece) == (table, Some((sized, body))));
        assert(pieces.drop_first() =~= Seq::<Seq<u8>>::empty());
        assert(yields(table, pieces.drop_first()) =~= Seq::empty());
        assert(fed(table, pieces.drop_first()) == table);
        assert(yields(start, pieces) =~= seq![Some((sized, body))]);
    } else {
        let later = rest.subrange(size, rest.len() as int);
        let joined = acc + payload;
        assert(payload + later =~= rest);
        assert(joined + later =~= whole);
        assert(joined =~= whole.subrange(0, acc.len() + size));
        lemma_truncated_frame(head, body, acc.len() + size);
        assert(decode_step(start, piece) == (table.insert(t, joined), None::<
            (HeadView, Seq<u8>),
        >));
        lemma_reassemble_from(table, head, body, tag, size, joined, later);
        let tail = fragments_spec(later, tag, size);
        assert(joined.len() > 0);
        let next = waiting_under(table, t, joined);
        assert(next == table.insert(t, joined));
        assert(pieces =~= seq![piece] + tail);
        assert(pieces.drop_first() =~= tail);
        assert(pieces.len() == tail.len() + 1);
        let ys = yields(start, pieces);
        let ys_tail = yields(next, tail);
        assert(ys =~= seq![None::<(HeadView, Seq<u8>)>] + ys_tail);
        assert(ys.last() == ys_tail.last());
        assert(fed(start, pieces) == fed(next, tail));
        assert forall|i: int| 0 <= i < pieces.len() - 1 implies (#[trigger] ys[i]) is None by {
            if i > 0 {
                assert(ys[i] == ys_tail[i - 1]);
                assert(ys_tail[i - 1] is None);
            } else {
                assert(ys[0] == None::<(HeadView, Seq<u8>)>);
            }
        }
    }
}

} // verus!
