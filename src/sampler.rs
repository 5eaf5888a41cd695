//! The input checks of the triangular inverse-CDF sampler.
use vstd::prelude::*;
use crate::error::Error;
use crate::ieee::{float_le, float_lt, ieee_le, ieee_lt, INFINITY_BITS, MAGNITUDE_MASK, ONE_BITS, ZERO_BITS};

verus! {

/// Neither NaN nor an infinity.
pub open spec fn is_finite(b: u64) -> bool {
    b & MAGNITUDE_MASK < INFINITY_BITS
}

/// A uniform variate the sampler accepts: `0 <= p <= 1`.
pub open spec fn valid_probability(p: u64) -> bool {
    ieee_le(ZERO_BITS, p) && ieee_le(p, ONE_BITS)
}

/// Bounds that define a triangular distribution: finite, `min <= mode <= max`
/// and `min < max`.
pub open spec fn valid_task_bounds(min: u64, mode: u64, max: u64) -> bool {
    &&& is_finite(min) && is_finite(mode) && is_finite(max)
    &&& ieee_le(min, mode) && ieee_le(mode, max) && ieee_lt(min, max)
}

/// Whether the bit pattern is a finite value.
pub fn is_finite_bits(b: u64) -> (r: bool)
    ensures
        r == is_finite(b),
{
    b & MAGNITUDE_MASK < INFINITY_BITS
}

/// Accepts a uniform variate in `[0, 1]`; anything else, NaN included, is a
/// domain error.
pub fn check_probability(p: u64) -> (r: Result<(), Error>)
    ensures
        r is Ok <==> valid_probability(p),
        r is Err ==> r matches Err(Error::Domain),
{
    if float_le(ZERO_BITS, p) && float_le(p, ONE_BITS) {
        Ok(())
    } else {
        Err(Error::Domain)
    }
}

/// Accepts the bounds of a task that define a triangular distribution.
pub fn check_task_bounds(min: u64, mode: u64, max: u64) -> (r: Result<(), Error>)
    ensures
        r is Ok <==> valid_task_bounds(min, mode, max),
        r is Err ==> r matches Err(Error::DegenerateDistribution),
{
    if is_finite_bits(min) && is_finite_bits(mode) && is_finite_bits(max) && float_le(min, mode)
        && float_le(mode, max) && float_lt(min, max) {
        Ok(())
    } else {
        Err(Error::DegenerateDistribution)
    }
}

} // verus!
