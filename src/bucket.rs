//! Placing the samples of a series into equal-width histogram buckets.
use vstd::prelude::*;
use crate::error::Error;
use crate::ieee::{float_eq, ieee_eq};

verus! {

/// The bucket of a sample whose raw index `floor((s - min) / width)` is `raw`:
/// bucket 0 when every sample is equal (the width is zero), else `raw`
/// clamped to the last bucket.
pub open spec fn bucket_of(raw: usize, bucket_count: usize, degenerate: bool) -> int {
    if degenerate {
        0
    } else if raw < bucket_count {
        raw as int
    } else {
        bucket_count - 1
    }
}

/// The samples among the first `n` that land in bucket `b`, in series order.
pub open spec fn bucket_content(
    samples: Seq<u64>,
    raw: Seq<usize>,
    bucket_count: usize,
    degenerate: bool,
    b: int,
    n: nat,
) -> Seq<u64>
    decreases n,
{
    if n == 0 {
        seq![]
    } else {
        let prev = bucket_content(samples, raw, bucket_count, degenerate, b, (n - 1) as nat);
        if bucket_of(raw[n - 1], bucket_count, degenerate) == b {
            prev.push(samples[n - 1])
        } else {
            prev
        }
    }
}

/// The total size of buckets `0 .. k` over the first `n` samples.
pub open spec fn total_bucket_len(
    samples: Seq<u64>,
    raw: Seq<usize>,
    bucket_count: usize,
    degenerate: bool,
    k: nat,
    n: nat,
) -> nat
    decreases k,
{
    if k == 0 {
        0
    } else {
        total_bucket_len(samples, raw, bucket_count, degenerate, (k - 1) as nat, n)
            + bucket_content(samples, raw, bucket_count, degenerate, k - 1, n).len()
    }
}

/// The bucket of one sample, given its raw index.
pub fn bucket_index(raw: usize, bucket_count: usize, degenerate: bool) -> (r: usize)
    requires
        1 <= bucket_count,
    ensures
        r == bucket_of(raw, bucket_count, degenerate),
        r < bucket_count,
{
    if degenerate {
        0
    } else if raw < bucket_count {
        raw
    } else {
        bucket_count - 1
    }
}

proof fn lemma_total_step(
    samples: Seq<u64>,
    raw: Seq<usize>,
    bucket_count: usize,
    degenerate: bool,
    k: nat,
    n: nat,
)
    requires
        n < samples.len(),
        n < raw.len(),
    ensures
        total_bucket_len(samples, raw, bucket_count, degenerate, k, n + 1)
            == total_bucket_len(samples, raw, bucket_count, degenerate, k, n)
                + (if 0 <= bucket_of(raw[n as int], bucket_count, degenerate) < k { 1int } else { 0int }),
    decreases k,
{
    if k > 0 {
        lemma_total_step(samples, raw, bucket_count, degenerate, (k - 1) as nat, n);
    }
}

/// Every sample lands in exactly one bucket: over all `bucket_count` buckets
/// the sizes add up to the length of the series.
pub proof fn lemma_buckets_keep_every_sample(
    samples: Seq<u64>,
    raw: Seq<usize>,
    bucket_count: usize,
    degenerate: bool,
    n: nat,
)
    requires
        1 <= bucket_count,
        n <= samples.len(),
        n <= raw.len(),
    ensures
        total_bucket_len(samples, raw, bucket_count, degenerate, bucket_count as nat, n) == n,
    decreases n,
{
    if n > 0 {
        lemma_buckets_keep_every_sample(samples, raw, bucket_count, degenerate, (n - 1) as nat);
        lemma_total_step(samples, raw, bucket_count, degenerate, bucket_count as nat, (n - 1) as nat);
    } else {
        lemma_total_empty(samples, raw, bucket_count, degenerate, bucket_count as nat);
    }
}

proof fn lemma_total_empty(samples: Seq<u64>, raw: Seq<usize>, bucket_count: usize, degenerate: bool, k: nat)
    ensures
        total_bucket_len(samples, raw, bucket_count, degenerate, k, 0) == 0,
    decreases k,
{
    if k > 0 {
        lemma_total_empty(samples, raw, bucket_count, degenerate, (k - 1) as nat);
    }
}

/// `buckets` is the bucketing of `samples` for some raw indices that
/// `raw_index` gives for the samples (read only when `min != max`).
pub open spec fn is_bucketing<R: Fn(u64) -> usize>(
    buckets: Seq<Vec<u64>>,
    samples: Seq<u64>,
    min: u64,
    max: u64,
    bucket_count: usize,
    raw_index: R,
) -> bool {
    exists|raw: Seq<usize>| raw.len() == samples.len()
        && (!ieee_eq(min, max) ==> forall|i: int| 0 <= i < samples.len() ==> call_ensures(raw_index, (samples[i],), #[trigger] raw[i]))
        && buckets.len() == bucket_count
        && (forall|b: int| 0 <= b < bucket_count ==> (#[trigger] buckets[b])@ == bucket_content(samples, raw, bucket_count, ieee_eq(min, max), b, samples.len()))
        && #[trigger] total_bucket_len(samples, raw, bucket_count, ieee_eq(min, max), bucket_count as nat, samples.len()) == samples.len()
}

/// Places each sample of a series into one of `bucket_count` equal-width
/// buckets over `[min, max]`. `raw_index(s)` is `floor((s - min) / width)`;
/// when `min == max` the width is zero, `raw_index` is never called and every
/// sample goes to bucket 0.
pub fn bucket_samples<R: Fn(u64) -> usize>(
    samples: &Vec<u64>,
    min: u64,
    max: u64,
    bucket_count: usize,
    raw_index: &R,
) -> (r: Result<Vec<Vec<u64>>, Error>)
    requires
        !ieee_eq(min, max) ==> forall|s: u64| call_requires(*raw_index, (s,)),
    ensures
        r is Err <==> bucket_count == 0,
        r is Err ==> r matches Err(Error::InvalidBucketCount),
        r is Ok ==> is_bucketing(r->Ok_0@, samples@, min, max, bucket_count, *raw_index),
{
    if bucket_count == 0 {
        return Err(Error::InvalidBucketCount);
    }
    let degenerate = float_eq(min, max);
    let mut buckets: Vec<Vec<u64>> = Vec::new();
    let mut b: usize = 0;
    while b < bucket_count
        invariant
            b <= bucket_count,
            buckets@.len() == b,
            forall|j: int| 0 <= j < b ==> (#[trigger] buckets@[j])@ == Seq::<u64>::empty(),
        decreases bucket_count - b,
    {
        buckets.push(Vec::new());
        b += 1;
    }
    let n = samples.len();
    let ghost mut raw: Seq<usize> = Seq::empty();
    let mut i: usize = 0;
    while i < n
        invariant
            1 <= bucket_count,
            n == samples@.len(),
            degenerate == ieee_eq(min, max),
            !degenerate ==> forall|s: u64| call_requires(*raw_index, (s,)),
            i <= n,
            raw.len() == i,
            !degenerate ==> forall|j: int| 0 <= j < i ==> call_ensures(*raw_index, (samples@[j],), #[trigger] raw[j]),
            buckets@.len() == bucket_count,
            forall|j: int| 0 <= j < bucket_count ==> (#[trigger] buckets@[j])@ == bucket_content(
                samples@,
                raw,
                bucket_count,
                degenerate,
                j,
                i as nat,
            ),
        decreases n - i,
    {
        let s = samples[i];
        let raw_i: usize = if degenerate {
            0
        } else {
            (*raw_index)(s)
        };
        proof {
            let old_raw = raw;
            raw = raw.push(raw_i);
            assert forall|j: int| 0 <= j < bucket_count implies bucket_content(samples@, raw, bucket_count, degenerate, j, i as nat)
                == bucket_content(samples@, old_raw, bucket_count, degenerate, j, i as nat) by {
                lemma_content_prefix(samples@, old_raw, raw, bucket_count, degenerate, j, i as nat);
            }
        }
        let idx = bucket_index(raw_i, bucket_count, degenerate);
        buckets[idx].push(s);
        i += 1;
    }
    proof {
        lemma_buckets_keep_every_sample(samples@, raw, bucket_count, degenerate, n as nat);
    }
    Ok(buckets)
}

/// Bucket contents over the first `n` samples depend on the first `n` raw
/// indices only.
proof fn lemma_content_prefix(
    samples: Seq<u64>,
    raw1: Seq<usize>,
    raw2: Seq<usize>,
    bucket_count: usize,
    degenerate: bool,
    b: int,
    n: nat,
)
    requires
        n <= raw1.len(),
        n <= raw2.len(),
        forall|j: int| 0 <= j < n ==> raw1[j] == raw2[j],
    ensures
        bucket_content(samples, raw1, bucket_count, degenerate, b, n)
            == bucket_content(samples, raw2, bucket_count, degenerate, b, n),
    decreases n,
{
    if n > 0 {
        lemma_content_prefix(samples, raw1, raw2, bucket_count, degenerate, b, (n - 1) as nat);
    }
}

/// The largest of the first `n` counts, or 0.
pub open spec fn max_count(counts: Seq<usize>, n: int) -> int
    decreases n,
{
    if n <= 0 {
        0
    } else {
        let m = max_count(counts, n - 1);
        if counts[n - 1] > m {
            counts[n - 1] as int
        } else {
            m
        }
    }
}

proof fn lemma_max_count_bounds(counts: Seq<usize>, n: int)
    requires
        0 <= n <= counts.len(),
    ensures
        0 <= max_count(counts, n) <= usize::MAX,
        forall|i: int| 0 <= i < n ==> counts[i] <= max_count(counts, n),
    decreases n,
{
    if n > 0 {
        lemma_max_count_bounds(counts, n - 1);
    }
}

/// The length of a histogram bar: the bucket's count scaled so that the
/// largest count fills `chart_line_length`, rounded down.
pub open spec fn bar_length(count: int, largest: int, chart_line_length: int) -> int {
    if largest == 0 {
        0
    } else {
        chart_line_length * count / largest
    }
}

/// The bar length of each bucket count, against the largest count.
pub fn histogram_bar_lengths(counts: &Vec<usize>, chart_line_length: usize) -> (r: Vec<usize>)
    ensures
        r@.len() == counts@.len(),
        forall|i: int| 0 <= i < counts@.len() ==> #[trigger] r@[i] == bar_length(
            counts@[i] as int,
            max_count(counts@, counts@.len() as int),
            chart_line_length as int,
        ),
        forall|i: int| 0 <= i < counts@.len() ==> #[trigger] r@[i] <= chart_line_length,
{
    let n = counts.len();
    let mut largest: usize = 0;
    let mut i: usize = 0;
    while i < n
        invariant
            n == counts@.len(),
            i <= n,
            largest == max_count(counts@, i as int),
        decreases n - i,
    {
        if counts[i] > largest {
            largest = counts[i];
        }
        i += 1;
    }
    proof {
        lemma_max_count_bounds(counts@, n as int);
    }
    let mut bars: Vec<usize> = Vec::new();
    let mut j: usize = 0;
    while j < n
        invariant
            n == counts@.len(),
            j <= n,
            largest == max_count(counts@, n as int),
            forall|k: int| 0 <= k < n ==> counts@[k] <= largest,
            bars@.len() == j,
            forall|k: int| 0 <= k < j ==> #[trigger] bars@[k] == bar_length(counts@[k] as int, largest as int, chart_line_length as int),
            forall|k: int| 0 <= k < j ==> #[trigger] bars@[k] <= chart_line_length,
        decreases n - j,
    {
        if largest == 0 {
            bars.push(0);
        } else {
            let c = counts[j];
            assert((chart_line_length as int) * (c as int) / (largest as int) <= chart_line_length) by (nonlinear_arith)
                requires
                    c <= largest,
                    largest > 0,
            {
                assert(chart_line_length * c <= chart_line_length * largest);
            }
            assert((chart_line_length as int) * (c as int) <= 0xffff_ffff_ffff_ffffint * 0xffff_ffff_ffff_ffffint) by (nonlinear_arith)
                requires
                    chart_line_length <= 0xffff_ffff_ffff_ffffint,
                    c <= 0xffff_ffff_ffff_ffffint,
            ;
            let len = ((chart_line_length as u128) * (c as u128) / (largest as u128)) as usize;
            bars.push(len);
        }
        j += 1;
    }
    bars
}

} // verus!
