//! Cross-field numeric conversion and safety-checking primitives for
//! embedding one prime field's values inside another field's arithmetic.
//!
//! The crate models a prime-field element's representation as a fixed-capacity
//! little-endian bit sequence, and provides:
//! - conversion of such a representation between fields of different bit widths,
//! - a decidable comparison of two fields' moduli as unbounded integers,
//! - canonical byte encoding of an affine curve point, and
//! - a typed wrapper marking a scalar as embeddable into a constraint field.

pub mod algebra;
pub mod bits;
pub mod fields;
