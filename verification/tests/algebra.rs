use field_embed::algebra::affine_point_as_bytes;
use field_embed::algebra::convert_bits;
use field_embed::algebra::modulus_is_smaller;
use field_embed::algebra::scalar_bits;
use field_embed::algebra::FieldElement;
use field_embed::algebra::ProjectiveCurve;
use field_embed::algebra::ScalarVar;
use field_embed::bits::BigInt;
use field_embed::fields::DemoAffine;
use field_embed::fields::DemoCurve;
use field_embed::fields::Fp11;
use field_embed::fields::Fp200;
use field_embed::fields::Fp251;
use field_embed::fields::Fp65521;

#[test]
fn comparator_equal_widths() {
    // Both moduli live in 8-bit representations: 200 < 251.
    assert!(modulus_is_smaller::<Fp200, Fp251>());
    assert!(!modulus_is_smaller::<Fp251, Fp200>());
}

#[test]
fn comparator_zero_extends_narrow_modulus() {
    // The 4-bit modulus 11 is zero-extended into 8 bits and compared with 200.
    assert!(modulus_is_smaller::<Fp11, Fp200>());
    assert!(!modulus_is_smaller::<Fp200, Fp11>());
}

#[test]
fn comparator_mixed_widths() {
    assert!(modulus_is_smaller::<Fp11, Fp65521>());
    assert!(!modulus_is_smaller::<Fp65521, Fp11>());
    assert!(modulus_is_smaller::<Fp251, Fp65521>());
    assert!(!modulus_is_smaller::<Fp65521, Fp251>());
}

#[test]
fn comparator_is_irreflexive() {
    assert!(!modulus_is_smaller::<Fp11, Fp11>());
    assert!(!modulus_is_smaller::<Fp200, Fp200>());
    assert!(!modulus_is_smaller::<Fp251, Fp251>());
    assert!(!modulus_is_smaller::<Fp65521, Fp65521>());
}

#[test]
fn convert_zero_extends() {
    // 11 in the 4-bit representation, converted to the 8-bit field.
    let small = BigInt::from_bits_le(vec![true, true, false, true]);
    let wide = convert_bits::<Fp251>(&small);
    assert_eq!(
        wide.to_bits_le(),
        vec![true, true, false, true, false, false, false, false]
    );
}

#[test]
fn convert_round_trip() {
    // 9 in the 4-bit representation, through the 16-bit field and back.
    let original = BigInt::from_bits_le(vec![true, false, false, true]);
    let wide = convert_bits::<Fp65521>(&original);
    assert_eq!(wide.len(), 16);
    let back = convert_bits::<Fp11>(&wide);
    assert_eq!(back.to_bits_le(), vec![true, false, false, true]);
}

#[test]
fn convert_truncation_preserves_covered_value() {
    // 13 in the 16-bit representation: the high bits are all zero, so the
    // 8-bit representation still denotes 13.
    let wide = BigInt::from_bits_le(vec![
        true, false, true, true, false, false, false, false, false, false, false, false, false,
        false, false, false,
    ]);
    let narrow = convert_bits::<Fp251>(&wide);
    assert_eq!(
        narrow.to_bits_le(),
        vec![true, false, true, true, false, false, false, false]
    );
}

#[test]
fn convert_drops_high_bits() {
    // 0x101 in the 16-bit representation loses its high bit at 8-bit capacity.
    let mut bits = vec![false; 16];
    bits[0] = true;
    bits[8] = true;
    let wide = BigInt::from_bits_le(bits);
    let narrow = convert_bits::<Fp251>(&wide);
    assert_eq!(
        narrow.to_bits_le(),
        vec![true, false, false, false, false, false, false, false]
    );
}

#[test]
fn num_bits_counts_significant_bits() {
    assert_eq!(BigInt::from_bits_le(vec![false; 8]).num_bits(), 0);
    assert_eq!(
        BigInt::from_bits_le(vec![true, true, false, true, true, true, true, true]).num_bits(),
        8
    );
    assert_eq!(
        BigInt::from_bits_le(vec![true, true, false, true, false, false, false, false])
            .num_bits(),
        4
    );
}

#[test]
fn scalar_bits_of_demo_curve() {
    // The scalar field's modulus 11 has four significant bits.
    assert_eq!(scalar_bits::<DemoCurve>(), 4);
}

#[test]
fn serialization_exact_bytes() {
    let point = DemoAffine {
        x: BigInt::from_bits_le(vec![true, true, false, false, false, false, false, false]),
        y: BigInt::from_bits_le(vec![true, true, true, false, false, false, false, false]),
        infinity: false,
    };
    assert_eq!(affine_point_as_bytes::<DemoCurve>(&point), vec![3u8, 7u8, 0u8]);
}

#[test]
fn serialization_marks_infinity() {
    let point = DemoAffine {
        x: BigInt::from_bits_le(vec![false; 8]),
        y: BigInt::from_bits_le(vec![false; 8]),
        infinity: true,
    };
    assert_eq!(affine_point_as_bytes::<DemoCurve>(&point), vec![0u8, 0u8, 1u8]);
}

#[test]
fn serialization_is_deterministic() {
    let point = DemoAffine {
        x: BigInt::from_bits_le(vec![false, false, false, true, false, false, true, true]),
        y: BigInt::from_bits_le(vec![true, true, true, true, true, false, false, false]),
        infinity: false,
    };
    let first = affine_point_as_bytes::<DemoCurve>(&point);
    let second = affine_point_as_bytes::<DemoCurve>(&point);
    assert_eq!(first, second);
}

#[test]
fn serialization_fault_on_malformed_point() {
    // A coordinate below the base field's capacity signals a broken upstream
    // invariant: the serialization capability reports the fault.
    let point = DemoAffine {
        x: BigInt::from_bits_le(vec![true, true]),
        y: BigInt::from_bits_le(vec![false; 8]),
        infinity: false,
    };
    assert!(<DemoCurve as ProjectiveCurve>::serialize_affine(&point).is_err());
}

#[test]
fn field_element_accepts_in_range_value() {
    let repr = BigInt::from_bits_le(vec![false, true, false, false, false, false, false, false]);
    let element = FieldElement::<Fp251>::from_repr(repr);
    assert!(element.is_some());
    assert_eq!(
        element.unwrap().repr().to_bits_le(),
        vec![false, true, false, false, false, false, false, false]
    );
}

#[test]
fn field_element_rejects_wrong_capacity() {
    let repr = BigInt::from_bits_le(vec![true, true]);
    assert!(FieldElement::<Fp251>::from_repr(repr).is_none());
}

#[test]
fn field_element_rejects_out_of_range_value() {
    // The modulus 251 itself is not an element.
    let modulus = BigInt::from_bits_le(vec![true, true, false, true, true, true, true, true]);
    assert!(FieldElement::<Fp251>::from_repr(modulus).is_none());
    // Neither is 252.
    let above = BigInt::from_bits_le(vec![false, false, true, true, true, true, true, true]);
    assert!(FieldElement::<Fp251>::from_repr(above).is_none());
}

#[test]
fn scalar_var_wraps_element() {
    let repr = BigInt::from_bits_le(vec![true, false, false, false, false, false, false, false]);
    let element = FieldElement::<Fp251>::from_repr(repr).unwrap();
    let _var: ScalarVar<DemoCurve, ()> = ScalarVar::new(element);
}
