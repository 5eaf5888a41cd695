//! Running reductions over a generated series.
use vstd::prelude::*;
use crate::error::Error;
use crate::ieee::{order_key, total_order_key};

verus! {

/// A run draws at least one sample per task; zero is an error.
pub fn check_sample_count(sample_count: usize) -> (r: Result<(), Error>)
    ensures
        r is Ok <==> sample_count >= 1,
        r is Err ==> r matches Err(Error::EmptySample),
{
    if sample_count == 0 {
        Err(Error::EmptySample)
    } else {
        Ok(())
    }
}

/// `lo` and `hi` are values of `s`, the least and the greatest in the
/// IEEE-754 total order.
pub open spec fn is_range_of(s: Seq<u64>, lo: u64, hi: u64) -> bool {
    &&& s.contains(lo) && s.contains(hi)
    &&& forall|i: int| 0 <= i < s.len() ==> order_key(lo) <= order_key(#[trigger] s[i]) && order_key(s[i]) <= order_key(hi)
}

/// The smallest and the largest sample, in one pass; an empty series has no
/// range.
pub fn series_range(samples: &Vec<u64>) -> (r: Result<(u64, u64), Error>)
    ensures
        r is Err <==> samples@.len() == 0,
        r is Err ==> r matches Err(Error::EmptySample),
        r is Ok ==> is_range_of(samples@, r->Ok_0.0, r->Ok_0.1),
{
    let n = samples.len();
    if n == 0 {
        return Err(Error::EmptySample);
    }
    let mut lo = samples[0];
    let mut hi = samples[0];
    let ghost mut lo_at: int = 0;
    let ghost mut hi_at: int = 0;
    let mut i: usize = 1;
    while i < n
        invariant
            n == samples@.len(),
            1 <= i <= n,
            0 <= lo_at < i && samples@[lo_at] == lo,
            0 <= hi_at < i && samples@[hi_at] == hi,
            forall|j: int| 0 <= j < i ==> order_key(lo) <= order_key(#[trigger] samples@[j]) && order_key(samples@[j]) <= order_key(hi),
        decreases n - i,
    {
        let s = samples[i];
        let k = total_order_key(s);
        if k < total_order_key(lo) {
            lo = s;
            proof {
                lo_at = i as int;
            }
        }
        if k > total_order_key(hi) {
            hi = s;
            proof {
                hi_at = i as int;
            }
        }
        i += 1;
    }
    assert(samples@.contains(lo) && samples@.contains(hi)) by {
        assert(samples@[lo_at] == lo && samples@[hi_at] == hi);
    }
    Ok((lo, hi))
}

} // verus!
