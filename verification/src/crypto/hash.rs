use std::cmp::Ordering;
use vstd::prelude::*;

use super::order::{bytes_order, compare_bytes};

verus! {

/// Number of bytes in a 256-bit hash value.
pub const HASH_LENGTH: usize = 32;

/// A 256-bit hash value, used as the identifier of groups, events and apps.
#[derive(Clone, Copy, Debug, Hash, Ord)]
pub struct H256 {
    bytes: [u8; 32],
}

impl View for H256 {
    type V = Seq<u8>;

    closed spec fn view(&self) -> Seq<u8> {
        self.bytes@
    }
}

impl H256 {
    /// Every hash value is exactly 32 bytes long.
    pub broadcast proof fn lemma_len(self)
        ensures
            #[trigger] self@.len() == 32,
    {
    }

    /// The hash whose bytes are all zero.
    pub fn zero() -> (h: H256)
        ensures
            h@ == Seq::new(32, |i: int| 0u8),
    {
        let h = H256 { bytes: [0u8; 32] };
        assert(h@ =~= Seq::new(32, |i: int| 0u8));
        h
    }

    /// Reads a hash from exactly 32 bytes; any other length is refused.
    pub fn from_bytes(bytes: &[u8]) -> (r: Option<H256>)
        ensures
            r.is_some() <==> bytes@.len() == 32,
            r.is_some() ==> r.unwrap()@ == bytes@,
    {
        if bytes.len() != 32 {
            return None;
        }
        let mut out = [0u8; 32];
        let mut i: usize = 0;
        while i < 32
            invariant
                i <= 32,
                bytes@.len() == 32,
                forall|j: int| 0 <= j < i ==> out@[j] == bytes@[j],
            decreases 32 - i,
        {
            out[i] = bytes[i];
            i += 1;
        }
        let h = H256 { bytes: out };
        assert(h@ =~= bytes@);
        Some(h)
    }

    /// The 32 bytes of this hash.
    pub fn to_bytes(&self) -> (out: [u8; 32])
        ensures
            out@ == self@,
    {
        self.bytes
    }

    /// Byte-wise equality.
    fn same(&self, other: &H256) -> (b: bool)
        ensures
            b == (self@ == other@),
    {
        let mut i: usize = 0;
        while i < 32
            invariant
                i <= 32,
                forall|j: int| 0 <= j < i ==> self.bytes@[j] == other.bytes@[j],
            decreases 32 - i,
        {
            if self.bytes[i] != other.bytes[i] {
                return false;
            }
            i += 1;
        }
        assert(self@ =~= other@);
        true
    }
}

impl PartialEq for H256 {
    fn eq(&self, other: &H256) -> (b: bool) {
        self.same(other)
    }
}

impl Eq for H256 {

}

impl vstd::std_specs::cmp::PartialEqSpecImpl for H256 {
    open spec fn obeys_eq_spec() -> bool {
        true
    }

    open spec fn eq_spec(&self, other: &H256) -> bool {
        self@ == other@
    }
}

impl PartialOrd for H256 {
    fn partial_cmp(&self, other: &H256) -> (r: Option<Ordering>) {
        let c = compare_bytes(self.bytes.as_slice(), other.bytes.as_slice());
        if c < 0 {
            Some(Ordering::Less)
        } else if c == 0 {
            Some(Ordering::Equal)
        } else {
            Some(Ordering::Greater)
        }
    }
}

impl vstd::std_specs::cmp::PartialOrdSpecImpl for H256 {
    open spec fn obeys_partial_cmp_spec() -> bool {
        true
    }

    /// Byte by byte, the first difference decides.
    open spec fn partial_cmp_spec(&self, other: &H256) -> Option<Ordering> {
        Some(bytes_order(self@, other@))
    }
}

impl Default for H256 {
    fn default() -> (h: H256)
        ensures
            h@ == Seq::new(32, |i: int| 0u8),
    {
        H256::zero()
    }
}

} // verus!
