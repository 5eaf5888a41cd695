//! Nearest-rank percentiles and quartiles of a sample series.
use vstd::prelude::*;
use crate::error::Error;
use crate::ieee::{order_key, total_order_key, lemma_order_key_injective};

verus! {

/// The `k`-th of `count` percentile ranks, evenly spaced over `[0, 100]`.
pub open spec fn percentile_rank(k: int, count: int) -> int {
    k * 100 / (count - 1)
}

/// The nearest-rank position of rank `rank` in a sorted series of length `n`.
pub open spec fn percentile_position(n: int, rank: int) -> int {
    ((n - 1) * rank) / 100
}

/// The value at rank `rank` of the sorted series `sorted`.
pub open spec fn percentile_value(sorted: Seq<u64>, rank: int) -> u64 {
    sorted[percentile_position(sorted.len() as int, rank)]
}

/// Ascending in the IEEE-754 total order.
pub open spec fn sorted_by_total_order(s: Seq<u64>) -> bool {
    forall|i: int, j: int| 0 <= i < j < s.len() ==> order_key(#[trigger] s[i]) <= order_key(#[trigger] s[j])
}

/// `t` holds the values of `s`, ascending in the IEEE-754 total order.
pub open spec fn is_sorted_copy(t: Seq<u64>, s: Seq<u64>) -> bool {
    t.to_multiset() == s.to_multiset() && sorted_by_total_order(t)
}

/// The order statistics of a series; values are binary64 bit patterns.
pub struct OrderStats {
    /// Each requested rank, with the value at that rank.
    pub percentiles: Vec<(usize, u64)>,
    /// The value at rank 25.
    pub iqr_lower: u64,
    /// The value at rank 75.
    pub iqr_upper: u64,
    /// The value at rank 50.
    pub median: u64,
}

/// `r` holds, for the sorted series `sorted`, the values at each of `count`
/// evenly spaced ranks and at the quartiles.
pub open spec fn selects_order_stats(r: OrderStats, sorted: Seq<u64>, count: int) -> bool {
    &&& r.percentiles@.len() == count
    &&& forall|k: int| 0 <= k < count ==> (#[trigger] r.percentiles@[k]).0 == percentile_rank(k, count)
        && r.percentiles@[k].1 == percentile_value(sorted, percentile_rank(k, count))
    &&& r.iqr_lower == percentile_value(sorted, 25)
    &&& r.iqr_upper == percentile_value(sorted, 75)
    &&& r.median == percentile_value(sorted, 50)
}

/// Every rank lies in `[0, 100]`.
pub proof fn lemma_percentile_rank_bounds(k: int, count: int)
    requires
        2 <= count,
        0 <= k < count,
    ensures
        0 <= percentile_rank(k, count) <= 100,
{
    assert(0 <= k * 100 / (count - 1) <= 100) by (nonlinear_arith)
        requires
            0 <= k <= count - 1,
            1 <= count - 1,
    {
        assert(k * 100 <= (count - 1) * 100);
    }
}

/// The `k`-th of `percentile_count` ranks: `k * 100 / (percentile_count - 1)`.
pub fn percentile_rank_at(k: usize, percentile_count: usize) -> (r: usize)
    requires
        2 <= percentile_count,
        k < percentile_count,
    ensures
        r == percentile_rank(k as int, percentile_count as int),
        r <= 100,
{
    let d: u128 = (percentile_count - 1) as u128;
    proof {
        lemma_percentile_rank_bounds(k as int, percentile_count as int);
    }
    ((k as u128) * 100 / d) as usize
}

/// The position in a sorted series of `n` values that rank `rank` selects:
/// `((n - 1) * rank) / 100`, the nearest rank without interpolation.
pub fn percentile_index(n: usize, rank: usize) -> (r: usize)
    requires
        1 <= n,
        rank <= 100,
    ensures
        r == percentile_position(n as int, rank as int),
        r < n,
{
    assert(((n - 1) * rank) / 100 <= n - 1) by (nonlinear_arith)
        requires
            rank <= 100,
            1 <= n,
    {
        assert((n - 1) * rank <= (n - 1) * 100);
    }
    (((n - 1) as u128) * (rank as u128) / 100) as usize
}

/// The `percentile_count` ranks, evenly spaced from 0 to 100.
pub fn percentile_ranks(percentile_count: usize) -> (r: Result<Vec<usize>, Error>)
    ensures
        percentile_count < 2 <==> r is Err,
        r is Err ==> r == Err::<Vec<usize>, Error>(Error::InvalidPercentileCount),
        r is Ok ==> r->Ok_0@.len() == percentile_count
            && (forall|k: int| 0 <= k < percentile_count ==> #[trigger] r->Ok_0@[k] == percentile_rank(k, percentile_count as int))
            && r->Ok_0@[0] == 0
            && r->Ok_0@[percentile_count - 1] == 100,
{
    if percentile_count < 2 {
        return Err(Error::InvalidPercentileCount);
    }
    let mut ranks: Vec<usize> = Vec::new();
    let mut k: usize = 0;
    while k < percentile_count
        invariant
            2 <= percentile_count,
            k <= percentile_count,
            ranks@.len() == k,
            forall|j: int| 0 <= j < k ==> #[trigger] ranks@[j] == percentile_rank(j, percentile_count as int),
        decreases percentile_count - k,
    {
        ranks.push(percentile_rank_at(k, percentile_count));
        k += 1;
    }
    let ghost c = percentile_count as int;
    assert(0int * 100 / (c - 1) == 0);
    assert((c - 1) * 100 / (c - 1) == 100) by (nonlinear_arith)
        requires
            c >= 2,
    ;
    Ok(ranks)
}

/// Selects from an already sorted series the values at `percentile_count`
/// evenly spaced ranks, at the quartiles and at the median.
pub fn select_order_statistics(sorted: &Vec<u64>, percentile_count: usize) -> (r: Result<OrderStats, Error>)
    ensures
        r is Err <==> percentile_count < 2 || sorted@.len() == 0,
        percentile_count < 2 ==> r matches Err(Error::InvalidPercentileCount),
        2 <= percentile_count && sorted@.len() == 0 ==> r matches Err(Error::EmptySample),
        r is Ok ==> selects_order_stats(r->Ok_0, sorted@, percentile_count as int),
{
    let ranks = match percentile_ranks(percentile_count) {
        Ok(ranks) => ranks,
        Err(e) => return Err(e),
    };
    let n = sorted.len();
    if n == 0 {
        return Err(Error::EmptySample);
    }
    assert forall|j: int| 0 <= j < percentile_count implies #[trigger] ranks@[j] <= 100 by {
        lemma_percentile_rank_bounds(j, percentile_count as int);
    }
    let mut percentiles: Vec<(usize, u64)> = Vec::new();
    let mut k: usize = 0;
    while k < percentile_count
        invariant
            2 <= percentile_count,
            n == sorted@.len(),
            1 <= n,
            k <= percentile_count,
            ranks@.len() == percentile_count,
            forall|j: int| 0 <= j < percentile_count ==> #[trigger] ranks@[j] == percentile_rank(j, percentile_count as int),
            forall|j: int| 0 <= j < percentile_count ==> #[trigger] ranks@[j] <= 100,
            percentiles@.len() == k,
            forall|j: int| 0 <= j < k ==> (#[trigger] percentiles@[j]).0 == percentile_rank(j, percentile_count as int)
                && percentiles@[j].1 == percentile_value(sorted@, percentile_rank(j, percentile_count as int)),
        decreases percentile_count - k,
    {
        let rank = ranks[k];
        let idx = percentile_index(n, rank);
        percentiles.push((rank, sorted[idx]));
        k += 1;
    }
    let iqr_lower = sorted[percentile_index(n, 25)];
    let iqr_upper = sorted[percentile_index(n, 75)];
    let median = sorted[percentile_index(n, 50)];
    Ok(OrderStats { percentiles, iqr_lower, iqr_upper, median })
}

/// Relies on `slice::sort_by_key`: afterwards the vector holds the same
/// values, ascending by the key (here the total-order key).
#[verifier::external_body]
fn sort_by_total_order(v: &mut Vec<u64>)
    ensures
        final(v)@.to_multiset() == old(v)@.to_multiset(),
        sorted_by_total_order(final(v)@),
{
    v.sort_by_key(|b| total_order_key(*b));
}

/// Two series that hold the same values and are both sorted in the total
/// order are equal: the sorted copy of a series is unique.
pub proof fn lemma_sorted_copy_unique(a: Seq<u64>, b: Seq<u64>)
    requires
        a.to_multiset() == b.to_multiset(),
        sorted_by_total_order(a),
        sorted_by_total_order(b),
    ensures
        a == b,
    decreases a.len(),
{
    broadcast use vstd::seq_lib::group_to_multiset_ensures;
    assert(a.len() == a.to_multiset().len());
    assert(b.len() == b.to_multiset().len());
    if a.len() == 0 {
        assert(a =~= b);
    } else {
        let n = a.len() as int;
        let x = a[n - 1];
        let y = b[n - 1];
        assert(a.contains(x));
        assert(b.to_multiset().count(x) > 0);
        assert(b.contains(x));
        let j = choose|j: int| 0 <= j < n && b[j] == x;
        assert(order_key(x) <= order_key(y)) by {
            if j < n - 1 {
                assert(order_key(b[j]) <= order_key(b[n - 1]));
            }
        }
        assert(b.contains(y));
        assert(a.to_multiset().count(y) > 0);
        assert(a.contains(y));
        let i = choose|i: int| 0 <= i < n && a[i] == y;
        assert(order_key(y) <= order_key(x)) by {
            if i < n - 1 {
                assert(order_key(a[i]) <= order_key(a[n - 1]));
            }
        }
        lemma_order_key_injective(x, y);
        let a0 = a.drop_last();
        let b0 = b.drop_last();
        assert(a0.push(x) =~= a);
        assert(b0.push(x) =~= b);
        assert(a0.to_multiset().insert(x) == b0.to_multiset().insert(x));
        assert(a0.to_multiset() =~= b0.to_multiset()) by {
            assert forall|v: u64| a0.to_multiset().count(v) == b0.to_multiset().count(v) by {
                assert(a0.to_multiset().insert(x).count(v) == b0.to_multiset().insert(x).count(v));
            }
        }
        assert(sorted_by_total_order(a0)) by {
            assert forall|p: int, q: int| 0 <= p < q < a0.len() implies order_key(#[trigger] a0[p]) <= order_key(#[trigger] a0[q]) by {
                assert(a0[p] == a[p] && a0[q] == a[q]);
            }
        }
        assert(sorted_by_total_order(b0)) by {
            assert forall|p: int, q: int| 0 <= p < q < b0.len() implies order_key(#[trigger] b0[p]) <= order_key(#[trigger] b0[q]) by {
                assert(b0[p] == b[p] && b0[q] == b[q]);
            }
        }
        lemma_sorted_copy_unique(a0, b0);
    }
}

/// A copy of `samples`, sorted ascending in the IEEE-754 total order.
pub fn sort_samples(samples: &Vec<u64>) -> (r: Vec<u64>)
    ensures
        is_sorted_copy(r@, samples@),
{
    let mut sorted = samples.clone();
    assert(sorted@ =~= samples@);
    sort_by_total_order(&mut sorted);
    sorted
}

/// The order statistics of `samples`: the values at `percentile_count`
/// evenly spaced nearest ranks, the quartiles and the median of a sorted copy.
pub fn order_statistics(samples: &Vec<u64>, percentile_count: usize) -> (r: Result<OrderStats, Error>)
    ensures
        r is Err <==> percentile_count < 2 || samples@.len() == 0,
        percentile_count < 2 ==> r matches Err(Error::InvalidPercentileCount),
        2 <= percentile_count && samples@.len() == 0 ==> r matches Err(Error::EmptySample),
        r is Ok ==> exists|t: Seq<u64>| #[trigger] is_sorted_copy(t, samples@)
            && selects_order_stats(r->Ok_0, t, percentile_count as int),
        r is Ok ==> forall|t: Seq<u64>| #[trigger] is_sorted_copy(t, samples@)
            ==> selects_order_stats(r->Ok_0, t, percentile_count as int),
{
    let sorted = sort_samples(samples);
    proof {
        assert(sorted@.len() == samples@.len()) by {
            broadcast use vstd::seq_lib::group_to_multiset_ensures;
            assert(sorted@.len() == sorted@.to_multiset().len());
            assert(samples@.len() == samples@.to_multiset().len());
        }
        assert forall|t: Seq<u64>| is_sorted_copy(t, samples@) implies t == sorted@ by {
            lemma_sorted_copy_unique(t, sorted@);
        }
    }
    let r = select_order_statistics(&sorted, percentile_count);
    assert(is_sorted_copy(sorted@, samples@));
    r
}

} // verus!
