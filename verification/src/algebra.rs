//! Cross-field numeric conversion and safety-checking primitives over
//! prime-field and curve-group capabilities.

use crate::bits::lemma_num_bits_le_len;
use crate::bits::lemma_resize_preserves_covered_value;
use crate::bits::num_bits_of;
use crate::bits::resize_bits;
use crate::bits::value_of;
use crate::bits::BigInt;
use core::marker::PhantomData;
use vstd::prelude::*;

verus! {

/// A prime field's capability surface: the bit-width capacity of its
/// big-integer representation, and its modulus in that representation.
///
/// An implementation must keep the modulus exactly as wide as the field's
/// capacity; the contract of [`PrimeField::modulus`] states this, so every
/// implementation proves it.
pub trait PrimeField {
    /// The bit-width capacity of the field's big-integer representation.
    spec fn spec_bit_width() -> nat;

    /// The field's modulus as a little-endian bit sequence of length
    /// [`PrimeField::spec_bit_width`].
    spec fn spec_modulus() -> Seq<bool>;

    /// The bit-width capacity of the field's big-integer representation.
    fn bit_width() -> (w: usize)
        ensures
            w as nat == Self::spec_bit_width(),
    ;

    /// The field's modulus in the field's own representation.
    fn modulus() -> (m: BigInt)
        ensures
            m@ == Self::spec_modulus(),
            m@.len() == Self::spec_bit_width(),
    ;
}

/// Converts `scalar` to the bit representation of `O`: the same little-endian
/// bit sequence, zero-padded when `O`'s capacity is larger and with the
/// high-order bits dropped when it is smaller.
///
/// Dropping high-order bits is silently lossy; callers that must not lose
/// bits choose the conversion direction first, as [`modulus_is_smaller`] does.
pub fn convert_bits<O: PrimeField>(scalar: &BigInt) -> (r: BigInt)
    ensures
        r@ == resize_bits(scalar@, O::spec_bit_width()),
{
    let w = O::bit_width();
    let n = scalar.len();
    let mut bits: Vec<bool> = Vec::new();
    let mut i: usize = 0;
    while i < w
        invariant
            i <= w,
            w as nat == O::spec_bit_width(),
            n == scalar@.len(),
            bits@.len() == i,
            forall|j: int|
                0 <= j < i ==> bits@[j] == resize_bits(scalar@, O::spec_bit_width())[j],
        decreases w - i,
    {
        if i < n {
            bits.push(scalar.bit(i));
        } else {
            bits.push(false);
        }
        i += 1;
    }
    let r = BigInt::from_bits_le(bits);
    proof {
        assert(r@ =~= resize_bits(scalar@, O::spec_bit_width()));
    }
    r
}

/// Whether the modulus of `A` is strictly smaller than the modulus of `B`,
/// both read as unbounded integers.
pub open spec fn spec_modulus_is_smaller<A: PrimeField, B: PrimeField>() -> bool {
    value_of(A::spec_modulus()) < value_of(B::spec_modulus())
}

/// Checks that the modulus of `A` is smaller than that of `B`.
///
/// The modulus with the smaller significant-bit count is converted into the
/// other side's representation, never the other way around: its significant
/// bits always fit the other side's capacity, so the conversion is lossless
/// and the comparison decides the order of the two moduli as unbounded
/// integers.
pub fn modulus_is_smaller<A: PrimeField, B: PrimeField>() -> (r: bool)
    ensures
        r == spec_modulus_is_smaller::<A, B>(),
{
    let modulus_a = A::modulus();
    let modulus_b = B::modulus();
    if modulus_a.num_bits() <= modulus_b.num_bits() {
        proof {
            lemma_num_bits_le_len(modulus_b@);
            lemma_resize_preserves_covered_value(modulus_a@, B::spec_bit_width());
        }
        convert_bits::<B>(&modulus_a).less_than(&modulus_b)
    } else {
        proof {
            lemma_num_bits_le_len(modulus_a@);
            lemma_resize_preserves_covered_value(modulus_b@, A::spec_bit_width());
        }
        modulus_a.less_than(&convert_bits::<A>(&modulus_b))
    }
}

/// A field's modulus is never smaller than itself.
pub proof fn lemma_modulus_not_smaller_than_itself<F: PrimeField>()
    ensures
        !spec_modulus_is_smaller::<F, F>(),
{
}

/// Round trip: converting a representation of field `X` into a field `Y` of
/// no smaller capacity and back into `X`'s capacity reproduces it exactly.
pub proof fn lemma_convert_round_trip<X: PrimeField, Y: PrimeField>(s: Seq<bool>)
    requires
        s.len() == X::spec_bit_width(),
        X::spec_bit_width() <= Y::spec_bit_width(),
    ensures
        resize_bits(resize_bits(s, Y::spec_bit_width()), X::spec_bit_width()) == s,
{
    assert(resize_bits(resize_bits(s, Y::spec_bit_width()), X::spec_bit_width()) =~= s);
}

/// Truncation safety: converting a representation of field `X` into a field
/// `Y` whose capacity still covers all of the value's significant bits
/// preserves the value, even when `Y`'s capacity is smaller than `X`'s.
pub proof fn lemma_convert_covered_value<X: PrimeField, Y: PrimeField>(s: Seq<bool>)
    requires
        s.len() == X::spec_bit_width(),
        num_bits_of(s) <= Y::spec_bit_width(),
    ensures
        value_of(resize_bits(s, Y::spec_bit_width())) == value_of(s),
{
    lemma_resize_preserves_covered_value(s, Y::spec_bit_width());
}

/// A fault while producing the canonical encoding of an affine point; it
/// signals a malformed point upstream, never an expected runtime condition.
#[derive(Debug)]
pub struct SerializeFault;

/// A curve group's capability surface: its scalar field, the prime field over
/// which an enclosing circuit's constraints are built, its affine point form,
/// and that form's canonical serialization.
pub trait ProjectiveCurve {
    /// The curve's scalar field.
    type ScalarField: PrimeField;

    /// The prime field over which an enclosing circuit's constraints are
    /// built.
    type ConstraintField: PrimeField;

    /// The affine (two-coordinate, non-projective) point form.
    type Affine;

    /// Whether an affine point is well formed; a well-formed point always
    /// serializes successfully.
    spec fn spec_wf_affine(point: &Self::Affine) -> bool;

    /// The canonical byte encoding of an affine point: a function of the
    /// point alone, so serialization is deterministic.
    spec fn spec_serialized(point: &Self::Affine) -> Seq<u8>;

    /// Produces the canonical byte encoding of `point`; succeeds on every
    /// well-formed point, and whatever it returns on success is the point's
    /// canonical encoding.
    fn serialize_affine(point: &Self::Affine) -> (r: Result<Vec<u8>, SerializeFault>)
        ensures
            Self::spec_wf_affine(point) ==> r is Ok,
            r is Ok ==> r.unwrap()@ == Self::spec_serialized(point),
    ;
}

/// Converts `point` into its canonical byte representation.
///
/// Serialization of a well-formed affine point is not allowed to fail, so the
/// fault branch is verified unreachable.
pub fn affine_point_as_bytes<C: ProjectiveCurve>(point: &C::Affine) -> (r: Vec<u8>)
    requires
        C::spec_wf_affine(point),
    ensures
        r@ == C::spec_serialized(point),
{
    match C::serialize_affine(point) {
        Ok(buffer) => buffer,
        Err(_) => vstd::pervasive::unreached(),
    }
}

/// Serialization is deterministic: any two canonical byte encodings of the
/// same affine point are byte-identical.
pub proof fn lemma_serialization_deterministic<C: ProjectiveCurve>(
    point: &C::Affine,
    first: Seq<u8>,
    second: Seq<u8>,
)
    requires
        first == C::spec_serialized(point),
        second == C::spec_serialized(point),
    ensures
        first == second,
{
}

/// Returns the number of significant modulus bits of the scalar field of a
/// given curve `C`.
pub fn scalar_bits<C: ProjectiveCurve>() -> (r: usize)
    ensures
        r == num_bits_of(<C::ScalarField as PrimeField>::spec_modulus()),
{
    let modulus = <C::ScalarField as PrimeField>::modulus();
    modulus.num_bits()
}

/// An element of the prime field `F`, carried in `F`'s big-integer
/// representation and validated as in range for `F`.
pub struct FieldElement<F: PrimeField> {
    repr: BigInt,
    marker: PhantomData<F>,
}

impl<F: PrimeField> FieldElement<F> {
    /// Whether the element is well formed: its representation is at the
    /// field's capacity and its value lies below the field's modulus.
    pub open spec fn wf(&self) -> bool {
        &&& self.spec_repr().len() == F::spec_bit_width()
        &&& value_of(self.spec_repr()) < value_of(F::spec_modulus())
    }

    /// The element's little-endian bit representation.
    pub closed spec fn spec_repr(&self) -> Seq<bool> {
        self.repr@
    }

    /// Validates `repr` as an element of `F`: accepted if and only if it is
    /// at the field's capacity and numerically below the field's modulus.
    pub fn from_repr(repr: BigInt) -> (r: Option<FieldElement<F>>)
        ensures
            r is Some <==> (repr@.len() == F::spec_bit_width() && value_of(repr@) < value_of(
                F::spec_modulus(),
            )),
            r is Some ==> r.unwrap().wf() && r.unwrap().spec_repr() == repr@,
    {
        let modulus = F::modulus();
        if repr.len() == modulus.len() && repr.less_than(&modulus) {
            Some(FieldElement { repr, marker: PhantomData })
        } else {
            None
        }
    }

    /// The element's representation as a big integer of `F`'s capacity.
    pub fn repr(&self) -> (r: &BigInt)
        ensures
            r@ == self.spec_repr(),
    {
        &self.repr
    }
}

/// Elliptic curve scalar element variable: a constraint-field element marked,
/// through the curve-variable tag `CV`, as standing for a scalar of `C`'s
/// scalar field inside a circuit built over `C`'s constraint field.
///
/// # Safety
///
/// This type can only be used whenever the embedded scalar field is
/// **smaller** than the outer scalar field: construction is only sound when
/// [`modulus_is_smaller`] holds of the scalar field and the constraint field.
/// That check is the integrating caller's obligation ahead of time; no
/// validation is repeated here.
pub struct ScalarVar<C, CV> where C: ProjectiveCurve {
    pub(crate) element: FieldElement<C::ConstraintField>,
    marker: PhantomData<CV>,
}

impl<C, CV> ScalarVar<C, CV> where C: ProjectiveCurve {
    /// The wrapped constraint-field element.
    pub closed spec fn spec_element(&self) -> FieldElement<C::ConstraintField> {
        self.element
    }

    /// Builds a new [`ScalarVar`] from a given `scalar`.
    pub fn new(scalar: FieldElement<C::ConstraintField>) -> (r: Self)
        ensures
            r.spec_element() == scalar,
    {
        ScalarVar { element: scalar, marker: PhantomData }
    }
}

} // verus!
