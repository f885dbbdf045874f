use std::cmp::Ordering;
use vstd::prelude::*;

verus! {

/// How two byte strings compare, as a number: negative, zero or positive as
/// `a` comes before, equals or comes after `b`. The first byte in which they
/// differ decides; a proper prefix comes before its extensions.
pub open spec fn bytes_code(a: Seq<u8>, b: Seq<u8>) -> int
    decreases a.len(),
{
    if a.len() == 0 && b.len() == 0 {
        0
    } else if a.len() == 0 {
        -1
    } else if b.len() == 0 {
        1
    } else if a[0] < b[0] {
        -1
    } else if a[0] > b[0] {
        1
    } else {
        bytes_code(a.drop_first(), b.drop_first())
    }
}

/// How two byte strings compare.
pub open spec fn bytes_order(a: Seq<u8>, b: Seq<u8>) -> Ordering {
    if bytes_code(a, b) < 0 {
        Ordering::Less
    } else if bytes_code(a, b) == 0 {
        Ordering::Equal
    } else {
        Ordering::Greater
    }
}

/// Compares two byte strings; the result is -1, 0 or 1.
pub(crate) fn compare_bytes(a: &[u8], b: &[u8]) -> (c: i8)
    ensures
        c == bytes_code(a@, b@),
        -1 <= c <= 1,
{
    let mut i: usize = 0;
    assert(a@.skip(0) =~= a@ && b@.skip(0) =~= b@);
    while i < a.len() && i < b.len()
        invariant
            i <= a@.len(),
            i <= b@.len(),
            bytes_code(a@, b@) == bytes_code(a@.skip(i as int), b@.skip(i as int)),
        decreases a@.len() - i,
    {
        assert(a@.skip(i as int).drop_first() =~= a@.skip(i + 1));
        assert(b@.skip(i as int).drop_first() =~= b@.skip(i + 1));
        if a[i] < b[i] {
            return -1;
        }
        if a[i] > b[i] {
            return 1;
        }
        i += 1;
    }
    if i < b.len() {
        -1
    } else if i < a.len() {
        1
    } else {
        0
    }
}

} // verus!
