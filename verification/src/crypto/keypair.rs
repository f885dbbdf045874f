use std::cmp::Ordering;
use vstd::prelude::*;

use super::order::{bytes_order, compare_bytes};

verus! {

/// Number of bytes in a public key.
pub const PUBLIC_KEY_LENGTH: usize = 32;

/// Number of bytes in a signature.
pub const SIGNATURE_LENGTH: usize = 64;

/// A public key: 32 bytes that name a peer.
#[derive(Clone, Copy, Debug, Hash, Ord)]
pub struct PublicKey {
    bytes: [u8; 32],
}

/// A signature: 64 bytes produced by the holder of a private key.
#[derive(Clone, Copy, Debug)]
pub struct Signature {
    bytes: [u8; 64],
}

/// A private key. Its length depends on the signature scheme in use, so the
/// bytes are kept as they were given.
#[derive(Clone, Debug)]
pub struct PrivateKey {
    bytes: Vec<u8>,
}

impl View for PublicKey {
    type V = Seq<u8>;

    closed spec fn view(&self) -> Seq<u8> {
        self.bytes@
    }
}

impl View for Signature {
    type V = Seq<u8>;

    closed spec fn view(&self) -> Seq<u8> {
        self.bytes@
    }
}

impl View for PrivateKey {
    type V = Seq<u8>;

    closed spec fn view(&self) -> Seq<u8> {
        self.bytes@
    }
}

impl PublicKey {
    /// Every public key is exactly 32 bytes long.
    pub broadcast proof fn lemma_len(self)
        ensures
            #[trigger] self@.len() == 32,
    {
    }

    /// Reads a public key from exactly 32 bytes; any other length is refused.
    pub fn from_bytes(bytes: &[u8]) -> (r: Option<PublicKey>)
        ensures
            r.is_some() <==> bytes@.len() == 32,
            r.is_some() ==> r.unwrap()@ == bytes@,
    {
        if bytes.len() != 32 {
            return None;
        }
        let mut out = [0u8; 32];
        let mut i: usize = 0;
        while i < 32
            invariant
                i <= 32,
                bytes@.len() == 32,
                forall|j: int| 0 <= j < i ==> out@[j] == bytes@[j],
            decreases 32 - i,
        {
            out[i] = bytes[i];
            i += 1;
        }
        let k = PublicKey { bytes: out };
        assert(k@ =~= bytes@);
        Some(k)
    }

    /// The 32 bytes of this key.
    pub fn to_bytes(&self) -> (out: [u8; 32])
        ensures
            out@ == self@,
    {
        self.bytes
    }

    fn same(&self, other: &PublicKey) -> (b: bool)
        ensures
            b == (self@ == other@),
    {
        let mut i: usize = 0;
        while i < 32
            invariant
                i <= 32,
                forall|j: int| 0 <= j < i ==> self.bytes@[j] == other.bytes@[j],
            decreases 32 - i,
        {
            if self.bytes[i] != other.bytes[i] {
                return false;
            }
            i += 1;
        }
        assert(self@ =~= other@);
        true
    }
}

impl PartialEq for PublicKey {
    fn eq(&self, other: &PublicKey) -> (b: bool) {
        self.same(other)
    }
}

impl Eq for PublicKey {

}

impl vstd::std_specs::cmp::PartialEqSpecImpl for PublicKey {
    open spec fn obeys_eq_spec() -> bool {
        true
    }

    open spec fn eq_spec(&self, other: &PublicKey) -> bool {
        self@ == other@
    }
}

impl PartialOrd for PublicKey {
    fn partial_cmp(&self, other: &PublicKey) -> (r: Option<Ordering>) {
        let c = compare_bytes(self.bytes.as_slice(), other.bytes.as_slice());
        if c < 0 {
            Some(Ordering::Less)
        } else if c == 0 {
            Some(Ordering::Equal)
        } else {
            Some(Ordering::Greater)
        }
    }
}

impl vstd::std_specs::cmp::PartialOrdSpecImpl for PublicKey {
    open spec fn obeys_partial_cmp_spec() -> bool {
        true
    }

    /// Byte by byte, the first difference decides.
    open spec fn partial_cmp_spec(&self, other: &PublicKey) -> Option<Ordering> {
        Some(bytes_order(self@, other@))
    }
}

impl Default for PublicKey {
    fn default() -> (k: PublicKey)
        ensures
            k@ == Seq::new(32, |i: int| 0u8),
    {
        let k = PublicKey { bytes: [0u8; 32] };
        assert(k@ =~= Seq::new(32, |i: int| 0u8));
        k
    }
}

impl Signature {
    /// Every signature is exactly 64 bytes long.
    pub broadcast proof fn lemma_len(self)
        ensures
            #[trigger] self@.len() == 64,
    {
    }

    /// Reads a signature from exactly 64 bytes; any other length is refused.
    pub fn from_bytes(bytes: &[u8]) -> (r: Option<Signature>)
        ensures
            r.is_some() <==> bytes@.len() == 64,
            r.is_some() ==> r.unwrap()@ == bytes@,
    {
        if bytes.len() != 64 {
            return None;
        }
        let mut out = [0u8; 64];
        let mut i: usize = 0;
        while i < 64
            invariant
                i <= 64,
                bytes@.len() == 64,
                forall|j: int| 0 <= j < i ==> out@[j] == bytes@[j],
            decreases 64 - i,
        {
            out[i] = bytes[i];
            i += 1;
        }
        let s = Signature { bytes: out };
        assert(s@ =~= bytes@);
        Some(s)
    }

    /// The 64 bytes of this signature.
    pub fn to_bytes(&self) -> (out: [u8; 64])
        ensures
            out@ == self@,
    {
        self.bytes
    }

    fn same(&self, other: &Signature) -> (b: bool)
        ensures
            b == (self@ == other@),
    {
        let mut i: usize = 0;
        while i < 64
            invariant
                i <= 64,
                forall|j: int| 0 <= j < i ==> self.bytes@[j] == other.bytes@[j],
            decreases 64 - i,
        {
            if self.bytes[i] != other.bytes[i] {
                return false;
            }
            i += 1;
        }
        assert(self@ =~= other@);
        true
    }
}

impl PartialEq for Signature {
    fn eq(&self, other: &Signature) -> (b: bool) {
        self.same(other)
    }
}

impl Eq for Signature {

}

impl vstd::std_specs::cmp::PartialEqSpecImpl for Signature {
    open spec fn obeys_eq_spec() -> bool {
        true
    }

    open spec fn eq_spec(&self, other: &Signature) -> bool {
        self@ == other@
    }
}

impl Default for Signature {
    fn default() -> (s: Signature)
        ensures
            s@ == Seq::new(64, |i: int| 0u8),
    {
        let s = Signature { bytes: [0u8; 64] };
        assert(s@ =~= Seq::new(64, |i: int| 0u8));
        s
    }
}

impl PrivateKey {
    /// Keeps the given bytes as a private key. An empty input is refused.
    pub fn from_bytes(bytes: &[u8]) -> (r: Option<PrivateKey>)
        ensures
            r.is_some() <==> bytes@.len() > 0,
            r.is_some() ==> r.unwrap()@ == bytes@,
    {
        if bytes.len() == 0 {
            return None;
        }
        let mut out: Vec<u8> = Vec::new();
        let mut i: usize = 0;
        while i < bytes.len()
            invariant
                i <= bytes@.len(),
                out@ == bytes@.subrange(0, i as int),
            decreases bytes@.len() - i,
        {
            out.push(bytes[i]);
            assert(out@ =~= bytes@.subrange(0, i + 1));
            i += 1;
        }
        assert(out@ =~= bytes@);
        Some(PrivateKey { bytes: out })
    }

    /// The bytes of this key.
    pub fn to_bytes(&self) -> (out: Vec<u8>)
        ensures
            out@ == self@,
    {
        self.bytes.clone()
    }
}

impl Default for PrivateKey {
    fn default() -> (k: PrivateKey)
        ensures
            k@ == Seq::<u8>::empty(),
    {
        PrivateKey { bytes: Vec::new() }
    }
}

} // verus!
