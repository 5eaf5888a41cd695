//! The Monte Carlo run: one sampled series per task, and their index-wise
//! total. The floating-point operations (the inverse CDF and addition) are
//! supplied by the caller as functions on bit patterns.
use vstd::prelude::*;
use crate::error::Error;
use crate::ieee::ZERO_BITS;
use crate::sampler::{check_probability, check_task_bounds, valid_probability, valid_task_bounds};
use crate::series::{check_sample_count, is_range_of, series_range};

verus! {

/// The three-point estimate of one task, as binary64 bit patterns.
#[derive(Clone, Copy, PartialEq, Eq, Structural)]
pub struct TaskBounds {
    pub min: u64,
    pub mode: u64,
    pub max: u64,
}

/// A generated series with its running reductions, computed in the same pass.
pub struct SampledSeries {
    pub samples: Vec<u64>,
    pub min: u64,
    pub max: u64,
    pub sum: u64,
}

/// `acc` holds the partial sums of `terms` under `add`, from `+0.0` on.
pub open spec fn is_sum_chain<G: Fn(u64, u64) -> u64>(add: G, terms: Seq<u64>, acc: Seq<u64>) -> bool {
    &&& acc.len() == terms.len() + 1
    &&& acc[0] == ZERO_BITS
    &&& forall|j: int| 0 <= j < terms.len() ==> call_ensures(add, (#[trigger] acc[j], terms[j]), acc[j + 1])
}

/// `total` is what adding up `terms` from left to right with `add` gives.
pub open spec fn is_sum_of<G: Fn(u64, u64) -> u64>(add: G, terms: Seq<u64>, total: u64) -> bool {
    exists|acc: Seq<u64>| #[trigger] is_sum_chain(add, terms, acc) && acc.last() == total
}

/// The reductions of `s` are those of its samples.
pub open spec fn series_wf<G: Fn(u64, u64) -> u64>(s: SampledSeries, add: G) -> bool {
    &&& is_range_of(s.samples@, s.min, s.max)
    &&& is_sum_of(add, s.samples@, s.sum)
}

/// The samples with index `i` across all series: the `i`-th scenario.
pub open spec fn column(series: Seq<SampledSeries>, i: int) -> Seq<u64> {
    Seq::new(series.len(), |j: int| series[j].samples@[i])
}

/// Some variate is outside `[0, 1]`.
pub open spec fn has_invalid_variate(variates: Seq<u64>) -> bool {
    exists|i: int| 0 <= i < variates.len() && !valid_probability(#[trigger] variates[i])
}

/// Adds up `terms` from left to right with `add`, starting from `+0.0`.
pub fn sum_in_order<G: Fn(u64, u64) -> u64>(terms: &Vec<u64>, add: &G) -> (r: u64)
    requires
        forall|a: u64, b: u64| call_requires(*add, (a, b)),
    ensures
        is_sum_of(*add, terms@, r),
{
    let mut total: u64 = ZERO_BITS;
    let ghost mut acc: Seq<u64> = seq![ZERO_BITS];
    let mut i: usize = 0;
    while i < terms.len()
        invariant
            forall|a: u64, b: u64| call_requires(*add, (a, b)),
            i <= terms@.len(),
            acc.len() == i + 1,
            acc[0] == ZERO_BITS,
            acc.last() == total,
            forall|j: int| 0 <= j < i ==> call_ensures(*add, (#[trigger] acc[j], terms@[j]), acc[j + 1]),
        decreases terms@.len() - i,
    {
        let next = (*add)(total, terms[i]);
        proof {
            acc = acc.push(next);
        }
        total = next;
        i += 1;
    }
    assert(is_sum_chain(*add, terms@, acc));
    total
}

/// Builds a series with its range and sum.
fn reduce_series<G: Fn(u64, u64) -> u64>(samples: Vec<u64>, add: &G) -> (r: SampledSeries)
    requires
        samples@.len() >= 1,
        forall|a: u64, b: u64| call_requires(*add, (a, b)),
    ensures
        r.samples@ == samples@,
        series_wf(r, *add),
{
    let (min, max) = match series_range(&samples) {
        Ok(range) => range,
        Err(_) => (0, 0),
    };
    let sum = sum_in_order(&samples, add);
    SampledSeries { samples, min, max, sum }
}

/// Samples one task: each variate goes through `inv_cdf` with the task's
/// bounds. The variates are checked to lie in `[0, 1]` and the bounds to
/// define a triangular distribution before `inv_cdf` sees them.
pub fn sample_task<F: Fn(u64, u64, u64, u64) -> u64, G: Fn(u64, u64) -> u64>(
    task: TaskBounds,
    variates: &Vec<u64>,
    inv_cdf: &F,
    add: &G,
) -> (r: Result<SampledSeries, Error>)
    requires
        forall|p: u64, a: u64, b: u64, c: u64| valid_probability(p) && valid_task_bounds(a, b, c)
            ==> call_requires(*inv_cdf, (p, a, b, c)),
        forall|a: u64, b: u64| call_requires(*add, (a, b)),
    ensures
        r is Err <==> variates@.len() == 0 || !valid_task_bounds(task.min, task.mode, task.max)
            || has_invalid_variate(variates@),
        variates@.len() == 0 ==> r matches Err(Error::EmptySample),
        variates@.len() > 0 && !valid_task_bounds(task.min, task.mode, task.max)
            ==> r matches Err(Error::DegenerateDistribution),
        variates@.len() > 0 && valid_task_bounds(task.min, task.mode, task.max) && has_invalid_variate(variates@)
            ==> r matches Err(Error::Domain),
        r is Ok ==> r->Ok_0.samples@.len() == variates@.len() && series_wf(r->Ok_0, *add)
            && forall|i: int| 0 <= i < variates@.len() ==> call_ensures(
                *inv_cdf,
                (variates@[i], task.min, task.mode, task.max),
                #[trigger] r->Ok_0.samples@[i],
            ),
{
    if variates.len() == 0 {
        return Err(Error::EmptySample);
    }
    if let Err(e) = check_task_bounds(task.min, task.mode, task.max) {
        return Err(e);
    }
    let mut samples: Vec<u64> = Vec::new();
    let mut i: usize = 0;
    while i < variates.len()
        invariant
            forall|p: u64, a: u64, b: u64, c: u64| valid_probability(p) && valid_task_bounds(a, b, c)
                ==> call_requires(*inv_cdf, (p, a, b, c)),
            valid_task_bounds(task.min, task.mode, task.max),
            i <= variates@.len(),
            samples@.len() == i,
            forall|j: int| 0 <= j < i ==> valid_probability(#[trigger] variates@[j]),
            forall|j: int| 0 <= j < i ==> call_ensures(
                *inv_cdf,
                (variates@[j], task.min, task.mode, task.max),
                #[trigger] samples@[j],
            ),
        decreases variates@.len() - i,
    {
        let p = variates[i];
        if let Err(e) = check_probability(p) {
            return Err(e);
        }
        let s = (*inv_cdf)(p, task.min, task.mode, task.max);
        samples.push(s);
        i += 1;
    }
    Ok(reduce_series(samples, add))
}

/// The total series: for each index `i`, the sum with `add` of the `i`-th
/// samples of all series, in series order.
pub fn total_series<G: Fn(u64, u64) -> u64>(
    series: &Vec<SampledSeries>,
    sample_count: usize,
    add: &G,
) -> (r: Result<SampledSeries, Error>)
    requires
        forall|j: int| 0 <= j < series@.len() ==> (#[trigger] series@[j]).samples@.len() == sample_count,
        forall|a: u64, b: u64| call_requires(*add, (a, b)),
    ensures
        r is Err <==> sample_count == 0,
        r is Err ==> r matches Err(Error::EmptySample),
        r is Ok ==> r->Ok_0.samples@.len() == sample_count && series_wf(r->Ok_0, *add)
            && forall|i: int| 0 <= i < sample_count ==> is_sum_of(*add, column(series@, i), #[trigger] r->Ok_0.samples@[i]),
{
    if sample_count == 0 {
        return Err(Error::EmptySample);
    }
    let mut sums: Vec<u64> = Vec::new();
    let mut i: usize = 0;
    while i < sample_count
        invariant
            forall|j: int| 0 <= j < series@.len() ==> (#[trigger] series@[j]).samples@.len() == sample_count,
            forall|a: u64, b: u64| call_requires(*add, (a, b)),
            i <= sample_count,
            sums@.len() == i,
            forall|k: int| 0 <= k < i ==> is_sum_of(*add, column(series@, k), #[trigger] sums@[k]),
        decreases sample_count - i,
    {
        let ghost col = column(series@, i as int);
        let mut total: u64 = ZERO_BITS;
        let ghost mut acc: Seq<u64> = seq![ZERO_BITS];
        let mut j: usize = 0;
        while j < series.len()
            invariant
                forall|t: int| 0 <= t < series@.len() ==> (#[trigger] series@[t]).samples@.len() == sample_count,
                forall|a: u64, b: u64| call_requires(*add, (a, b)),
                i < sample_count,
                col == column(series@, i as int),
                j <= series@.len(),
                acc.len() == j + 1,
                acc[0] == ZERO_BITS,
                acc.last() == total,
                forall|k: int| 0 <= k < j ==> call_ensures(*add, (#[trigger] acc[k], col[k]), acc[k + 1]),
            decreases series@.len() - j,
        {
            let next = (*add)(total, series[j].samples[i]);
            proof {
                acc = acc.push(next);
            }
            total = next;
            j += 1;
        }
        assert(is_sum_chain(*add, col, acc));
        sums.push(total);
        i += 1;
    }
    Ok(reduce_series(sums, add))
}

/// Task `j` cannot be sampled with its variates.
pub open spec fn task_fails(tasks: Seq<TaskBounds>, variates: Seq<Vec<u64>>, j: int) -> bool {
    !valid_task_bounds(tasks[j].min, tasks[j].mode, tasks[j].max) || has_invalid_variate(variates[j]@)
}

/// Runs the simulation: task `j` is sampled with `variates[j]`, and a last,
/// total series adds up the tasks' samples index by index.
pub fn run_monte_carlo<F: Fn(u64, u64, u64, u64) -> u64, G: Fn(u64, u64) -> u64>(
    tasks: &Vec<TaskBounds>,
    variates: &Vec<Vec<u64>>,
    sample_count: usize,
    inv_cdf: &F,
    add: &G,
) -> (r: Result<Vec<SampledSeries>, Error>)
    requires
        variates@.len() == tasks@.len(),
        forall|j: int| 0 <= j < variates@.len() ==> (#[trigger] variates@[j])@.len() == sample_count,
        forall|p: u64, a: u64, b: u64, c: u64| valid_probability(p) && valid_task_bounds(a, b, c)
            ==> call_requires(*inv_cdf, (p, a, b, c)),
        forall|a: u64, b: u64| call_requires(*add, (a, b)),
    ensures
        r is Err <==> sample_count == 0 || exists|j: int| 0 <= j < tasks@.len() && #[trigger] task_fails(tasks@, variates@, j),
        sample_count == 0 ==> r matches Err(Error::EmptySample),
        sample_count > 0 && r is Err ==> r matches Err(Error::Domain) || r matches Err(Error::DegenerateDistribution),
        sample_count > 0 && (forall|j: int| 0 <= j < tasks@.len() ==> valid_task_bounds(#[trigger] tasks@[j].min, tasks@[j].mode, tasks@[j].max))
            && r is Err ==> r matches Err(Error::Domain),
        sample_count > 0 && (forall|j: int| 0 <= j < tasks@.len() ==> !has_invalid_variate(#[trigger] variates@[j]@))
            && r is Err ==> r matches Err(Error::DegenerateDistribution),
        r is Ok ==> {
            let out = r->Ok_0@;
            &&& out.len() == tasks@.len() + 1
            &&& forall|j: int| 0 <= j < out.len() ==> (#[trigger] out[j]).samples@.len() == sample_count && series_wf(out[j], *add)
            &&& forall|j: int, i: int| 0 <= j < tasks@.len() && 0 <= i < sample_count ==> call_ensures(
                *inv_cdf,
                (variates@[j]@[i], tasks@[j].min, tasks@[j].mode, tasks@[j].max),
                #[trigger] out[j].samples@[i],
            )
            &&& forall|i: int| 0 <= i < sample_count ==> is_sum_of(
                *add,
                column(out.take(tasks@.len() as int), i),
                #[trigger] out[tasks@.len() as int].samples@[i],
            )
        },
{
    if let Err(e) = check_sample_count(sample_count) {
        return Err(e);
    }
    let mut out: Vec<SampledSeries> = Vec::new();
    let mut j: usize = 0;
    while j < tasks.len()
        invariant
            variates@.len() == tasks@.len(),
            forall|t: int| 0 <= t < variates@.len() ==> (#[trigger] variates@[t])@.len() == sample_count,
            forall|p: u64, a: u64, b: u64, c: u64| valid_probability(p) && valid_task_bounds(a, b, c)
                ==> call_requires(*inv_cdf, (p, a, b, c)),
            forall|a: u64, b: u64| call_requires(*add, (a, b)),
            sample_count > 0,
            j <= tasks@.len(),
            out@.len() == j,
            forall|t: int| 0 <= t < j ==> !#[trigger] task_fails(tasks@, variates@, t),
            forall|t: int| 0 <= t < j ==> (#[trigger] out@[t]).samples@.len() == sample_count && series_wf(out@[t], *add),
            forall|t: int, i: int| 0 <= t < j && 0 <= i < sample_count ==> call_ensures(
                *inv_cdf,
                (variates@[t]@[i], tasks@[t].min, tasks@[t].mode, tasks@[t].max),
                #[trigger] out@[t].samples@[i],
            ),
        decreases tasks@.len() - j,
    {
        match sample_task(tasks[j], &variates[j], inv_cdf, add) {
            Ok(series) => {
                out.push(series);
            },
            Err(e) => {
                assert(task_fails(tasks@, variates@, j as int));
                return Err(e);
            },
        }
        j += 1;
    }
    let ghost per_task = out@;
    let total = match total_series(&out, sample_count, add) {
        Ok(total) => total,
        Err(e) => return Err(e),
    };
    out.push(total);
    assert(out@.take(tasks@.len() as int) =~= per_task);
    Ok(out)
}

} // verus!
