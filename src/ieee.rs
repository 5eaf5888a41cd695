//! Comparison of IEEE-754 binary64 values given as their bit patterns.
use vstd::prelude::*;

verus! {

/// The sign bit of a binary64 bit pattern.
pub const SIGN_BIT: u64 = 0x8000_0000_0000_0000;

/// All bits but the sign bit.
pub const MAGNITUDE_MASK: u64 = 0x7fff_ffff_ffff_ffff;

/// The bit pattern of positive infinity: exponent all ones, mantissa zero.
pub const INFINITY_BITS: u64 = 0x7ff0_0000_0000_0000;

/// The bit pattern of `+0.0`.
pub const ZERO_BITS: u64 = 0;

/// The bit pattern of `1.0`.
pub const ONE_BITS: u64 = 0x3ff0_0000_0000_0000;

/// A NaN has all exponent bits set and a non-zero mantissa.
pub open spec fn is_nan(b: u64) -> bool {
    b & MAGNITUDE_MASK > INFINITY_BITS
}

/// `+0.0` and `-0.0`.
pub open spec fn is_zero(b: u64) -> bool {
    b & MAGNITUDE_MASK == 0
}

/// A key whose unsigned order is the IEEE-754 total order of the values:
/// negative values have all their bits flipped, the others get the sign bit set.
pub open spec fn order_key(b: u64) -> u64 {
    if b & SIGN_BIT != 0 {
        !b
    } else {
        b | SIGN_BIT
    }
}

/// IEEE-754 `a <= b`: false when either is NaN, and `-0.0 == +0.0`.
pub open spec fn ieee_le(a: u64, b: u64) -> bool {
    !is_nan(a) && !is_nan(b) && (order_key(a) <= order_key(b) || (is_zero(a) && is_zero(b)))
}

/// IEEE-754 `a < b`.
pub open spec fn ieee_lt(a: u64, b: u64) -> bool {
    !is_nan(a) && !is_nan(b) && order_key(a) < order_key(b) && !(is_zero(a) && is_zero(b))
}

/// IEEE-754 `a == b`.
pub open spec fn ieee_eq(a: u64, b: u64) -> bool {
    !is_nan(a) && !is_nan(b) && (a == b || (is_zero(a) && is_zero(b)))
}

/// Distinct bit patterns have distinct keys, so the total order is a strict
/// order on bit patterns.
pub proof fn lemma_order_key_injective(a: u64, b: u64)
    ensures
        order_key(a) == order_key(b) ==> a == b,
{
    assert((if a & SIGN_BIT != 0 { !a } else { a | SIGN_BIT }) == (if b & SIGN_BIT != 0 { !b } else { b | SIGN_BIT }) ==> a == b) by (bit_vector);
}

/// Whether the bit pattern is a NaN.
pub fn is_nan_bits(b: u64) -> (r: bool)
    ensures
        r == is_nan(b),
{
    b & MAGNITUDE_MASK > INFINITY_BITS
}

/// The position of the value in the IEEE-754 total order, as an unsigned key.
pub fn total_order_key(b: u64) -> (r: u64)
    ensures
        r == order_key(b),
{
    if b & SIGN_BIT != 0 {
        !b
    } else {
        b | SIGN_BIT
    }
}

/// IEEE-754 `a <= b` on bit patterns.
pub fn float_le(a: u64, b: u64) -> (r: bool)
    ensures
        r == ieee_le(a, b),
{
    if is_nan_bits(a) || is_nan_bits(b) {
        false
    } else {
        total_order_key(a) <= total_order_key(b) || (a & MAGNITUDE_MASK == 0 && b & MAGNITUDE_MASK == 0)
    }
}

/// IEEE-754 `a < b` on bit patterns.
pub fn float_lt(a: u64, b: u64) -> (r: bool)
    ensures
        r == ieee_lt(a, b),
{
    if is_nan_bits(a) || is_nan_bits(b) {
        false
    } else {
        total_order_key(a) < total_order_key(b) && !(a & MAGNITUDE_MASK == 0 && b & MAGNITUDE_MASK == 0)
    }
}

/// IEEE-754 `a == b` on bit patterns.
pub fn float_eq(a: u64, b: u64) -> (r: bool)
    ensures
        r == ieee_eq(a, b),
{
    if is_nan_bits(a) || is_nan_bits(b) {
        false
    } else {
        a == b || (a & MAGNITUDE_MASK == 0 && b & MAGNITUDE_MASK == 0)
    }
}

} // verus!
