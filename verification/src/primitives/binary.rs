use std::cmp::Ordering;
use vstd::prelude::*;
use vstd::std_specs::cmp::{PartialEqSpecImpl, PartialOrdSpecImpl};
use vstd::string::StringExecFns;

verus! {

/// A string of bits, most significant first.
#[derive(Debug, Clone, Hash, Eq, Ord)]
pub struct Binary(Vec<bool>);

impl View for Binary {
    type V = Seq<bool>;

    closed spec fn view(&self) -> Seq<bool> {
        self.0@
    }
}

/// The text of one bit.
pub open spec fn bit_char(b: bool) -> char {
    if b {
        '1'
    } else {
        '0'
    }
}

/// How two bit strings compare, as a number: negative, zero or positive as
/// `a` comes before, equals or comes after `b`. The first bit in which they
/// differ decides, a clear bit before a set one; a proper prefix comes
/// before its extensions.
pub open spec fn lex_code(a: Seq<bool>, b: Seq<bool>) -> int
    decreases a.len(),
{
    if a.len() == 0 && b.len() == 0 {
        0
    } else if a.len() == 0 {
        -1
    } else if b.len() == 0 {
        1
    } else if a[0] != b[0] {
        if b[0] {
            -1
        } else {
            1
        }
    } else {
        lex_code(a.drop_first(), b.drop_first())
    }
}

/// How two bit strings compare.
pub open spec fn lex_order(a: Seq<bool>, b: Seq<bool>) -> Ordering {
    if lex_code(a, b) < 0 {
        Ordering::Less
    } else if lex_code(a, b) == 0 {
        Ordering::Equal
    } else {
        Ordering::Greater
    }
}

/// Two bit strings compare as equal exactly when they are the same.
pub proof fn lemma_lex_code_zero(a: Seq<bool>, b: Seq<bool>)
    ensures
        lex_code(a, b) == 0 <==> a == b,
    decreases a.len(),
{
    if a.len() > 0 && b.len() > 0 && a[0] == b[0] {
        lemma_lex_code_zero(a.drop_first(), b.drop_first());
        if a.drop_first() == b.drop_first() {
            assert(a =~= seq![a[0]] + a.drop_first());
            assert(b =~= seq![b[0]] + b.drop_first());
        }
    } else if a.len() == 0 && b.len() == 0 {
        assert(a =~= b);
    }
}

fn compare_bits(a: &Vec<bool>, b: &Vec<bool>) -> (c: i8)
    ensures
        c == lex_code(a@, b@),
        -1 <= c <= 1,
{
    let mut i: usize = 0;
    assert(a@.skip(0) =~= a@ && b@.skip(0) =~= b@);
    while i < a.len() && i < b.len()
        invariant
            i <= a@.len(),
            i <= b@.len(),
            lex_code(a@, b@) == lex_code(a@.skip(i as int), b@.skip(i as int)),
        decreases a@.len() - i,
    {
        assert(a@.skip(i as int).drop_first() =~= a@.skip(i + 1));
        assert(b@.skip(i as int).drop_first() =~= b@.skip(i + 1));
        if a[i] != b[i] {
            if b[i] {
                return -1;
            } else {
                return 1;
            }
        }
        i += 1;
    }
    if i < b.len() {
        -1
    } else if i < a.len() {
        1
    } else {
        0
    }
}

impl Binary {
    /// Number of bits.
    pub fn len(&self) -> (n: usize)
        ensures
            n == self@.len(),
    {
        self.0.len()
    }

    /// The bit string that holds the bits of `vec`.
    pub fn new(vec: &Vec<bool>) -> (b: Binary)
        ensures
            b@ == vec@,
    {
        let mut bits: Vec<bool> = Vec::new();
        let mut i: usize = 0;
        while i < vec.len()
            invariant
                i <= vec@.len(),
                bits@ == vec@.subrange(0, i as int),
            decreases vec@.len() - i,
        {
            bits.push(vec[i]);
            assert(bits@ =~= vec@.subrange(0, i + 1));
            i += 1;
        }
        assert(bits@ =~= vec@);
        Binary(bits)
    }

    /// `len` set bits.
    pub fn max(len: usize) -> (b: Binary)
        ensures
            b@ == Seq::new(len as nat, |i: int| true),
    {
        let mut bits: Vec<bool> = Vec::new();
        let mut i: usize = 0;
        while i < len
            invariant
                i <= len,
                bits@ == Seq::new(i as nat, |j: int| true),
            decreases len - i,
        {
            bits.push(true);
            assert(bits@ =~= Seq::new((i + 1) as nat, |j: int| true));
            i += 1;
        }
        Binary(bits)
    }

    /// The bits as text, `1` for a set bit and `0` for a clear one.
    pub fn to_string(&self) -> (s: String)
        ensures
            s@ == self@.map_values(|b: bool| bit_char(b)),
    {
        let mut string = String::new();
        let mut i: usize = 0;
        proof {
            reveal_strlit("1");
            reveal_strlit("0");
        }
        assert(string@ =~= self@.subrange(0, 0).map_values(|b: bool| bit_char(b)));
        while i < self.0.len()
            invariant
                i <= self@.len(),
                "1"@ == seq!['1'],
                "0"@ == seq!['0'],
                string@ == self@.subrange(0, i as int).map_values(|b: bool| bit_char(b)),
            decreases self@.len() - i,
        {
            if self.0[i] {
                string.append("1");
            } else {
                string.append("0");
            }
            assert(string@ =~= self@.subrange(0, i + 1).map_values(|b: bool| bit_char(b)));
            i += 1;
        }
        assert(self@.subrange(0, i as int) =~= self@);
        string
    }

    /// The bit at `index`.
    pub fn index(&self, index: usize) -> (b: &bool)
        requires
            index < self@.len(),
        ensures
            *b == self@[index as int],
    {
        &self.0[index]
    }

    /// The leading bits that equal the first bit.
    pub fn get_same_prefix(&self) -> (p: Binary)
        requires
            self@.len() > 0,
        ensures
            0 < p@.len() <= self@.len(),
            p@ == self@.subrange(0, p@.len() as int),
            forall|j: int| 0 <= j < p@.len() ==> p@[j] == self@[0],
            p@.len() < self@.len() ==> self@[p@.len() as int] != self@[0],
    {
        let mut vec: Vec<bool> = Vec::new();
        let first_prefix: bool = self.0[0];
        let mut i: usize = 0;
        while i < self.0.len()
            invariant
                i <= self@.len(),
                self@.len() > 0,
                first_prefix == self@[0],
                vec@ == self@.subrange(0, i as int),
                forall|j: int| 0 <= j < i ==> self@[j] == first_prefix,
            decreases self@.len() - i,
        {
            if self.0[i] == first_prefix {
                vec.push(first_prefix);
                assert(vec@ =~= self@.subrange(0, i + 1));
            } else {
                return Binary(vec);
            }
            i += 1;
        }
        Binary(vec)
    }

    /// The bits from `start` up to `end`, or up to the last bit where `end`
    /// lies behind it. Nothing where `start` lies at or behind that bound.
    pub fn range(&self, start: usize, end: usize) -> (r: Binary)
        ensures
            start < end && start < self@.len() ==> r@ == self@.subrange(
                start as int,
                if self@.len() < end {
                    self@.len() as int
                } else {
                    end as int
                },
            ),
            !(start < end && start < self@.len()) ==> r@ == Seq::<bool>::empty(),
    {
        let true_end = if self.len() < end {
            self.len()
        } else {
            end
        };

        let mut vec: Vec<bool> = Vec::new();
        let mut i: usize = start;
        while i < true_end
            invariant
                true_end <= self@.len(),
                start <= i,
                start < true_end ==> i <= true_end,
                start < true_end ==> vec@ == self@.subrange(start as int, i as int),
                start >= true_end ==> vec@ == Seq::<bool>::empty(),
            decreases true_end - i,
        {
            vec.push(self.0[i]);
            assert(vec@ =~= self@.subrange(start as int, i + 1));
            i += 1;
        }
        Binary(vec)
    }

    /// Bit by bit, whether `self` and `other` differ. `other` must be at
    /// least as long as `self`; its further bits are ignored.
    pub fn xor(&self, other: &Binary) -> (x: Binary)
        requires
            self@.len() <= other@.len(),
        ensures
            x@ == Seq::new(self@.len(), |i: int| self@[i] != other@[i]),
    {
        let mut xor_: Vec<bool> = Vec::new();
        let mut i: usize = 0;
        while i < self.len()
            invariant
                i <= self@.len(),
                self@.len() <= other@.len(),
                xor_@ == Seq::new(i as nat, |j: int| self@[j] != other@[j]),
            decreases self@.len() - i,
        {
            xor_.push(self.0[i] ^ other.0[i]);
            assert(xor_@ =~= Seq::new((i + 1) as nat, |j: int| self@[j] != other@[j]));
            i += 1;
        }

        Binary::new(&xor_)
    }
}

impl PartialEq for Binary {
    fn eq(&self, other: &Binary) -> (b: bool) {
        proof {
            lemma_lex_code_zero(self@, other@);
        }
        compare_bits(&self.0, &other.0) == 0
    }
}

impl PartialEqSpecImpl for Binary {
    open spec fn obeys_eq_spec() -> bool {
        true
    }

    open spec fn eq_spec(&self, other: &Binary) -> bool {
        self@ == other@
    }
}

impl PartialOrd for Binary {
    fn partial_cmp(&self, other: &Binary) -> (r: Option<Ordering>) {
        let c = compare_bits(&self.0, &other.0);
        if c < 0 {
            Some(Ordering::Less)
        } else if c == 0 {
            Some(Ordering::Equal)
        } else {
            Some(Ordering::Greater)
        }
    }
}

impl PartialOrdSpecImpl for Binary {
    open spec fn obeys_partial_cmp_spec() -> bool {
        true
    }

    open spec fn partial_cmp_spec(&self, other: &Binary) -> Option<Ordering> {
        Some(lex_order(self@, other@))
    }
}

impl Default for Binary {
    /// Eight set bits.
    fn default() -> (b: Binary)
        ensures
            b@ == Seq::new(8, |i: int| true),
    {
        Binary::max(8)
    }
}

} // verus!
