//! Fixed-capacity big-integer representations as little-endian bit sequences.
//!
//! A [`BigInt`] is the canonical representation of a prime-field value: an
//! ordered sequence of bits, least significant first, whose length is the
//! owning field's bit-width capacity.

use vstd::arithmetic::power2::lemma2_to64;
use vstd::arithmetic::power2::lemma_pow2_unfold;
use vstd::arithmetic::power2::pow2;
use vstd::prelude::*;

verus! {

/// The unbounded integer denoted by a little-endian bit sequence.
pub open spec fn value_of(s: Seq<bool>) -> nat
    decreases s.len(),
{
    if s.len() == 0 {
        0
    } else {
        (if s[0] {
            1nat
        } else {
            0nat
        }) + 2 * value_of(s.drop_first())
    }
}

/// The number of significant bits of a little-endian bit sequence: one past
/// the position of the highest set bit, or zero when no bit is set.
pub open spec fn num_bits_of(s: Seq<bool>) -> nat
    decreases s.len(),
{
    if s.len() == 0 {
        0
    } else if s.last() {
        s.len()
    } else {
        num_bits_of(s.drop_last())
    }
}

/// Re-expresses a little-endian bit sequence at capacity `w`: zero-padded when
/// `w` is larger, with high-order bits dropped when `w` is smaller.
pub open spec fn resize_bits(s: Seq<bool>, w: nat) -> Seq<bool> {
    Seq::new(w, |i: int| 0 <= i < s.len() && s[i])
}

/// Appending a bit at the most significant end adds its weighted value.
pub proof fn lemma_value_push(s: Seq<bool>, b: bool)
    ensures
        value_of(s.push(b)) == value_of(s) + (if b {
            pow2(s.len())
        } else {
            0nat
        }),
    decreases s.len(),
{
    if s.len() == 0 {
        assert(s.push(b).len() == 1);
        assert(s.push(b)[0] == b);
        assert(s.push(b).drop_first() =~= Seq::<bool>::empty());
        assert(value_of(s.push(b)) == (if b {
            1nat
        } else {
            0nat
        }) + 2 * value_of(Seq::<bool>::empty()));
        lemma2_to64();
    } else {
        assert(s.push(b).drop_first() =~= s.drop_first().push(b));
        assert(s.push(b)[0] == s[0]);
        assert(value_of(s.push(b)) == (if s[0] {
            1nat
        } else {
            0nat
        }) + 2 * value_of(s.drop_first().push(b)));
        lemma_value_push(s.drop_first(), b);
        lemma_pow2_unfold(s.len());
    }
}

/// A sequence of `n` bits denotes a value below `pow2(n)`.
pub proof fn lemma_value_bound(s: Seq<bool>)
    ensures
        value_of(s) < pow2(s.len()),
    decreases s.len(),
{
    if s.len() == 0 {
        lemma2_to64();
    } else {
        lemma_value_bound(s.drop_first());
        lemma_pow2_unfold(s.len());
    }
}

/// The value of a sequence splits at any position `n` into the value of the
/// low `n` bits plus `pow2(n)` times the value of the remaining bits.
pub proof fn lemma_value_split(s: Seq<bool>, n: nat)
    requires
        n <= s.len(),
    ensures
        value_of(s) == value_of(s.take(n as int)) + pow2(n) * value_of(s.skip(n as int)),
    decreases n,
{
    if n == 0 {
        assert(s.take(0) =~= Seq::<bool>::empty());
        assert(s.skip(0) =~= s);
        lemma2_to64();
        assert(value_of(s) == value_of(s.take(0)) + pow2(0) * value_of(s.skip(0)));
    } else {
        let t = s.drop_first();
        let s0v: nat = if s[0] {
            1nat
        } else {
            0nat
        };
        lemma_value_split(t, (n - 1) as nat);
        assert(s.take(n as int).drop_first() =~= t.take(n - 1));
        assert(s.take(n as int)[0] == s[0]);
        assert(s.skip(n as int) =~= t.skip(n - 1));
        assert(value_of(s) == s0v + 2 * value_of(t));
        assert(value_of(s.take(n as int)) == s0v + 2 * value_of(t.take(n - 1)));
        lemma_pow2_unfold(n);
        assert(2 * (pow2((n - 1) as nat) * value_of(t.skip(n - 1))) == (2 * pow2(
            (n - 1) as nat,
        )) * value_of(t.skip(n - 1))) by (nonlinear_arith);
    }
}

/// A sequence with no bit set denotes zero.
pub proof fn lemma_value_zero(s: Seq<bool>)
    requires
        forall|j: int| 0 <= j < s.len() ==> !s[j],
    ensures
        value_of(s) == 0,
    decreases s.len(),
{
    if s.len() > 0 {
        lemma_value_zero(s.drop_first());
    }
}

/// A sequence has at most as many significant bits as its capacity.
pub proof fn lemma_num_bits_le_len(s: Seq<bool>)
    ensures
        num_bits_of(s) <= s.len(),
    decreases s.len(),
{
    if s.len() > 0 && !s.last() {
        lemma_num_bits_le_len(s.drop_last());
    }
}

/// Every bit at or above the significant-bit count is unset.
pub proof fn lemma_bits_above_num_bits_false(s: Seq<bool>, j: int)
    requires
        num_bits_of(s) <= j < s.len(),
    ensures
        !s[j],
    decreases s.len(),
{
    if j == s.len() - 1 {
        assert(!s.last());
    } else {
        assert(!s.last());
        lemma_bits_above_num_bits_false(s.drop_last(), j);
    }
}

/// If every bit at or above `n` is unset, the significant-bit count is at most `n`.
pub proof fn lemma_num_bits_bound(s: Seq<bool>, n: nat)
    requires
        forall|j: int| n <= j < s.len() ==> !s[j],
    ensures
        num_bits_of(s) <= n,
    decreases s.len(),
{
    if s.len() <= n {
        lemma_num_bits_le_len(s);
    } else {
        assert(!s.last());
        lemma_num_bits_bound(s.drop_last(), n);
    }
}

/// Re-expressing a sequence at a capacity that covers all of its significant
/// bits preserves the value it denotes.
pub proof fn lemma_resize_preserves_covered_value(s: Seq<bool>, w: nat)
    requires
        num_bits_of(s) <= w,
    ensures
        value_of(resize_bits(s, w)) == value_of(s),
{
    let r = resize_bits(s, w);
    if w <= s.len() {
        assert(r =~= s.take(w as int));
        lemma_value_split(s, w);
        assert forall|j: int| 0 <= j < s.skip(w as int).len() implies !s.skip(w as int)[j] by {
            lemma_bits_above_num_bits_false(s, j + w);
        }
        lemma_value_zero(s.skip(w as int));
    } else {
        assert(r.take(s.len() as int) =~= s);
        lemma_value_split(r, s.len());
        assert forall|j: int| 0 <= j < r.skip(s.len() as int).len() implies !r.skip(
            s.len() as int,
        )[j] by {
            assert(!r[j + s.len()]);
        }
        lemma_value_zero(r.skip(s.len() as int));
    }
}

/// Two equal-capacity sequences that agree above position `i`, where the
/// first is unset and the second set, denote strictly ordered values.
pub proof fn lemma_lt_from_high_bit(a: Seq<bool>, b: Seq<bool>, i: int)
    requires
        a.len() == b.len(),
        0 <= i < a.len(),
        forall|j: int| i < j < a.len() ==> a[j] == b[j],
        !a[i],
        b[i],
    ensures
        value_of(a) < value_of(b),
{
    lemma_value_split(a, (i + 1) as nat);
    lemma_value_split(b, (i + 1) as nat);
    assert(a.skip(i + 1) =~= b.skip(i + 1));
    assert(a.take(i + 1) =~= a.take(i).push(a[i]));
    assert(b.take(i + 1) =~= b.take(i).push(b[i]));
    lemma_value_push(a.take(i), a[i]);
    lemma_value_push(b.take(i), b[i]);
    lemma_value_bound(a.take(i));
}

/// A fixed-capacity big-integer representation: little-endian bits.
pub struct BigInt {
    bits: Vec<bool>,
}

impl View for BigInt {
    type V = Seq<bool>;

    closed spec fn view(&self) -> Seq<bool> {
        self.bits@
    }
}

impl BigInt {
    /// Builds a representation from a little-endian bit sequence.
    pub fn from_bits_le(bits: Vec<bool>) -> (r: BigInt)
        ensures
            r@ == bits@,
    {
        BigInt { bits }
    }

    /// Returns the little-endian bit sequence of this representation.
    pub fn to_bits_le(&self) -> (r: Vec<bool>)
        ensures
            r@ == self@,
    {
        let mut out: Vec<bool> = Vec::new();
        let mut i: usize = 0;
        while i < self.bits.len()
            invariant
                i <= self.bits.len(),
                out@ == self.bits@.take(i as int),
            decreases self.bits.len() - i,
        {
            out.push(self.bits[i]);
            assert(out@ =~= self.bits@.take(i + 1));
            i += 1;
        }
        assert(out@ =~= self.bits@);
        out
    }

    /// The capacity (number of bits) of this representation.
    pub fn len(&self) -> (r: usize)
        ensures
            r == self@.len(),
    {
        self.bits.len()
    }

    /// The bit at position `i` (position 0 is the least significant).
    pub fn bit(&self, i: usize) -> (b: bool)
        requires
            i < self@.len(),
        ensures
            b == self@[i as int],
    {
        self.bits[i]
    }

    /// Numeric comparison of two representations of the same capacity.
    pub fn less_than(&self, other: &BigInt) -> (r: bool)
        requires
            self@.len() == other@.len(),
        ensures
            r == (value_of(self@) < value_of(other@)),
    {
        let mut i: usize = self.bits.len();
        while i > 0
            invariant
                i <= self@.len(),
                self@.len() == other@.len(),
                forall|j: int| i <= j < self@.len() ==> self@[j] == other@[j],
            decreases i,
        {
            i = i - 1;
            let sa = self.bits[i];
            let sb = other.bits[i];
            if sa != sb {
                proof {
                    if sb {
                        lemma_lt_from_high_bit(self@, other@, i as int);
                    } else {
                        lemma_lt_from_high_bit(other@, self@, i as int);
                    }
                }
                return sb;
            }
        }
        proof {
            assert(self@ =~= other@);
        }
        false
    }

    /// The number of significant bits: one past the highest set bit, or zero
    /// when no bit is set.
    pub fn num_bits(&self) -> (r: usize)
        ensures
            r == num_bits_of(self@),
    {
        let mut i: usize = self.bits.len();
        proof {
            lemma_num_bits_le_len(self@);
        }
        while i > 0
            invariant
                i <= self@.len(),
                num_bits_of(self@) <= i,
            decreases i,
        {
            i = i - 1;
            if self.bits[i] {
                proof {
                    if num_bits_of(self@) <= i as int {
                        lemma_bits_above_num_bits_false(self@, i as int);
                    }
                }
                return i + 1;
            }
            proof {
                assert forall|j: int| i <= j < self@.len() implies !self@[j] by {
                    if j > i {
                        lemma_bits_above_num_bits_false(self@, j);
                    }
                }
                lemma_num_bits_bound(self@, i as nat);
            }
        }
        0
    }
}

} // verus!
