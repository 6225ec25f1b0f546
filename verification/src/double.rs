//! Ordering of IEEE-754 binary64 values carried as raw bit patterns.
//!
//! The rest of the crate never computes with these numbers; it only needs the
//! standard `<` ordering to reconstruct a box from two unordered corners. That
//! ordering is a pure function of the two bit patterns and is stated here
//! bit-for-bit: sign/magnitude comparison, every comparison involving a NaN
//! false, and the two zeroes equal.

use vstd::prelude::*;

verus! {

/// Exponent field of a binary64 bit pattern.
pub const EXP_MASK: u64 = 0x7FF0_0000_0000_0000;
/// Fraction field of a binary64 bit pattern.
pub const FRAC_MASK: u64 = 0x000F_FFFF_FFFF_FFFF;
/// Everything but the sign: the magnitude of the value.
pub const ABS_MASK: u64 = 0x7FFF_FFFF_FFFF_FFFF;
/// The sign bit.
pub const SIGN_MASK: u64 = 0x8000_0000_0000_0000;

/// A bit pattern denotes NaN when the exponent field is saturated and the
/// fraction field is nonzero.
pub open spec fn bits_is_nan(a: u64) -> bool {
    a & EXP_MASK == EXP_MASK && a & FRAC_MASK != 0
}

/// The `<` ordering of two binary64 values, on their bit patterns.
///
/// For non-NaN values the bit patterns order by sign and magnitude; the two
/// zeroes (magnitude 0 of either sign) compare equal, so neither is less than
/// the other. Any comparison involving a NaN is false.
pub open spec fn bits_lt(a: u64, b: u64) -> bool {
    if bits_is_nan(a) || bits_is_nan(b) {
        false
    } else {
        let neg_a = a & SIGN_MASK != 0;
        let neg_b = b & SIGN_MASK != 0;
        let mag_a = a & ABS_MASK;
        let mag_b = b & ABS_MASK;
        if neg_a && neg_b {
            mag_a > mag_b
        } else if neg_a && !neg_b {
            mag_a != 0 || mag_b != 0
        } else if !neg_a && neg_b {
            false
        } else {
            mag_a < mag_b
        }
    }
}

/// Whether a bit pattern denotes NaN.
pub fn is_nan(a: u64) -> (r: bool)
    ensures
        r == bits_is_nan(a),
{
    a & EXP_MASK == EXP_MASK && a & FRAC_MASK != 0
}

/// The `<` ordering of two binary64 values, on their bit patterns.
pub fn lt(a: u64, b: u64) -> (r: bool)
    ensures
        r == bits_lt(a, b),
{
    if is_nan(a) || is_nan(b) {
        false
    } else {
        let neg_a: bool = a & SIGN_MASK != 0;
        let neg_b: bool = b & SIGN_MASK != 0;
        let mag_a: u64 = a & ABS_MASK;
        let mag_b: u64 = b & ABS_MASK;
        if neg_a && neg_b {
            mag_a > mag_b
        } else if neg_a && !neg_b {
            mag_a != 0 || mag_b != 0
        } else if !neg_a && neg_b {
            false
        } else {
            mag_a < mag_b
        }
    }
}

/// The smaller of two values under the `<` ordering; the second when the
/// two compare equal or unordered.
pub open spec fn min_bits(a: u64, b: u64) -> u64 {
    if bits_lt(a, b) {
        a
    } else {
        b
    }
}

/// The larger of two values under the `<` ordering; the first when the two
/// compare equal or unordered.
pub open spec fn max_bits(a: u64, b: u64) -> u64 {
    if bits_lt(a, b) {
        b
    } else {
        a
    }
}

/// The two values in ascending order: `(a, b)` when `a < b`, else `(b, a)`,
/// exactly as the source convention reconstructs a box from two unordered
/// corner coordinates.
pub fn minmax(a: u64, b: u64) -> (r: (u64, u64))
    ensures
        r == (min_bits(a, b), max_bits(a, b)),
{
    if lt(a, b) {
        (a, b)
    } else {
        (b, a)
    }
}

} // verus!
