//! Ready-made small prime-field and curve-group instances.
//!
//! These fixed-width fields make the generic conversion and comparison
//! primitives directly usable and exercisable: their capacities and modulus
//! values are chosen to cover equal-width comparison, mixed-width comparison
//! with zero extension, and a curve whose scalar field embeds into its
//! constraint field.

use crate::algebra::PrimeField;
use crate::algebra::ProjectiveCurve;
use crate::algebra::SerializeFault;
use crate::bits::lemma_value_bound;
use crate::bits::lemma_value_push;
use crate::bits::value_of;
use crate::bits::BigInt;
use vstd::arithmetic::power2::lemma2_to64;
use vstd::arithmetic::power2::lemma_pow2_strictly_increases;
use vstd::arithmetic::power2::lemma_pow2_unfold;
use vstd::arithmetic::power2::pow2;
use vstd::prelude::*;

verus! {

/// A 4-bit-capacity field with modulus 11.
pub struct Fp11;

impl PrimeField for Fp11 {
    open spec fn spec_bit_width() -> nat {
        4
    }

    open spec fn spec_modulus() -> Seq<bool> {
        seq![true, true, false, true]
    }

    fn bit_width() -> (w: usize) {
        4
    }

    fn modulus() -> (m: BigInt) {
        let mut bits: Vec<bool> = Vec::new();
        bits.push(true);
        bits.push(true);
        bits.push(false);
        bits.push(true);
        proof {
            assert(bits@ =~= Self::spec_modulus());
        }
        BigInt::from_bits_le(bits)
    }
}

/// An 8-bit-capacity field with modulus value 200, kept for exercising the
/// modulus comparator on equal-width moduli.
pub struct Fp200;

impl PrimeField for Fp200 {
    open spec fn spec_bit_width() -> nat {
        8
    }

    open spec fn spec_modulus() -> Seq<bool> {
        seq![false, false, false, true, false, false, true, true]
    }

    fn bit_width() -> (w: usize) {
        8
    }

    fn modulus() -> (m: BigInt) {
        let mut bits: Vec<bool> = Vec::new();
        bits.push(false);
        bits.push(false);
        bits.push(false);
        bits.push(true);
        bits.push(false);
        bits.push(false);
        bits.push(true);
        bits.push(true);
        proof {
            assert(bits@ =~= Self::spec_modulus());
        }
        BigInt::from_bits_le(bits)
    }
}

/// An 8-bit-capacity field with modulus 251, the largest 8-bit prime.
pub struct Fp251;

impl PrimeField for Fp251 {
    open spec fn spec_bit_width() -> nat {
        8
    }

    open spec fn spec_modulus() -> Seq<bool> {
        seq![true, true, false, true, true, true, true, true]
    }

    fn bit_width() -> (w: usize) {
        8
    }

    fn modulus() -> (m: BigInt) {
        let mut bits: Vec<bool> = Vec::new();
        bits.push(true);
        bits.push(true);
        bits.push(false);
        bits.push(true);
        bits.push(true);
        bits.push(true);
        bits.push(true);
        bits.push(true);
        proof {
            assert(bits@ =~= Self::spec_modulus());
        }
        BigInt::from_bits_le(bits)
    }
}

/// A 16-bit-capacity field with modulus 65521, the largest 16-bit prime.
pub struct Fp65521;

impl PrimeField for Fp65521 {
    open spec fn spec_bit_width() -> nat {
        16
    }

    open spec fn spec_modulus() -> Seq<bool> {
        seq![
            true,
            false,
            false,
            false,
            true,
            true,
            true,
            true,
            true,
            true,
            true,
            true,
            true,
            true,
            true,
            true,
        ]
    }

    fn bit_width() -> (w: usize) {
        16
    }

    fn modulus() -> (m: BigInt) {
        let mut bits: Vec<bool> = Vec::new();
        bits.push(true);
        bits.push(false);
        bits.push(false);
        bits.push(false);
        let mut i: usize = 4;
        while i < 16
            invariant
                4 <= i <= 16,
                bits@.len() == i,
                forall|j: int| 0 <= j < i ==> bits@[j] == Self::spec_modulus()[j],
            decreases 16 - i,
        {
            bits.push(true);
            i += 1;
        }
        proof {
            assert(bits@ =~= Self::spec_modulus());
        }
        BigInt::from_bits_le(bits)
    }
}

/// Packs an 8-bit representation into the byte it denotes.
fn byte_of_repr(b: &BigInt) -> (r: u8)
    requires
        b@.len() == 8,
    ensures
        r as nat == value_of(b@),
{
    let mut acc: u16 = 0;
    let mut weight: u16 = 1;
    let mut i: usize = 0;
    proof {
        lemma2_to64();
        assert(b@.take(0) =~= Seq::<bool>::empty());
    }
    while i < 8
        invariant
            i <= 8,
            b@.len() == 8,
            weight as nat == pow2(i as nat),
            weight <= 256,
            acc as nat == value_of(b@.take(i as int)),
            acc < weight,
        decreases 8 - i,
    {
        proof {
            lemma2_to64();
            if (i as nat) < 8 {
                lemma_pow2_strictly_increases(i as nat, 8);
            }
            assert(b@.take(i + 1) =~= b@.take(i as int).push(b@[i as int]));
            lemma_value_push(b@.take(i as int), b@[i as int]);
            lemma_pow2_unfold((i + 1) as nat);
            lemma_value_bound(b@.take(i + 1));
        }
        if b.bit(i) {
            acc = acc + weight;
        }
        weight = weight * 2;
        i += 1;
    }
    proof {
        assert(b@.take(8) =~= b@);
    }
    acc as u8
}

/// A demonstration curve group: affine coordinates in the 8-bit base field
/// [`Fp251`], scalar field [`Fp11`], and [`Fp251`] as the constraint field,
/// so the scalar field embeds into the constraint field.
pub struct DemoCurve;

/// An affine point of [`DemoCurve`]: two coordinates in the base field's
/// 8-bit representation, plus the point-at-infinity flag.
pub struct DemoAffine {
    /// The x coordinate, at the base field's capacity.
    pub x: BigInt,
    /// The y coordinate, at the base field's capacity.
    pub y: BigInt,
    /// Whether this is the point at infinity.
    pub infinity: bool,
}

impl ProjectiveCurve for DemoCurve {
    type ScalarField = Fp11;

    type ConstraintField = Fp251;

    type Affine = DemoAffine;

    open spec fn spec_wf_affine(point: &DemoAffine) -> bool {
        point.x@.len() == 8 && point.y@.len() == 8
    }

    open spec fn spec_serialized(point: &DemoAffine) -> Seq<u8> {
        seq![
            value_of(point.x@) as u8,
            value_of(point.y@) as u8,
            if point.infinity {
                1u8
            } else {
                0u8
            },
        ]
    }

    fn serialize_affine(point: &DemoAffine) -> (r: Result<Vec<u8>, SerializeFault>) {
        if point.x.len() != 8 || point.y.len() != 8 {
            return Err(SerializeFault);
        }
        let mut buffer: Vec<u8> = Vec::new();
        buffer.push(byte_of_repr(&point.x));
        buffer.push(byte_of_repr(&point.y));
        buffer.push(
            if point.infinity {
                1
            } else {
                0
            },
        );
        proof {
            lemma2_to64();
            lemma_value_bound(point.x@);
            lemma_value_bound(point.y@);
            assert(buffer@ =~= Self::spec_serialized(point));
        }
        Ok(buffer)
    }
}

} // verus!
