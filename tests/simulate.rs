use estimation_distributions::{
    run_monte_carlo, sample_task, sum_in_order, total_series, Error, SampledSeries, TaskBounds,
};
use rand::rngs::StdRng;
use rand::{Rng, SeedableRng};

fn inv_cdf(p: u64, min: u64, mode: u64, max: u64) -> u64 {
    let (p, min, mode, max) =
        (f64::from_bits(p), f64::from_bits(min), f64::from_bits(mode), f64::from_bits(max));
    let cdf_at_mode = (mode - min) / (max - min);
    let v = if p <= cdf_at_mode {
        min + f64::sqrt(p * (mode - min) * (max - min))
    } else {
        max - f64::sqrt((max - min) * (max - mode) * (1.0 - p))
    };
    v.to_bits()
}

fn add(a: u64, b: u64) -> u64 {
    (f64::from_bits(a) + f64::from_bits(b)).to_bits()
}

fn task(min: f64, mode: f64, max: f64) -> TaskBounds {
    TaskBounds { min: min.to_bits(), mode: mode.to_bits(), max: max.to_bits() }
}

fn values(v: &[u64]) -> Vec<f64> {
    v.iter().map(|b| f64::from_bits(*b)).collect()
}

fn bits(v: &[f64]) -> Vec<u64> {
    v.iter().map(|x| x.to_bits()).collect()
}

fn draws(rng: &mut StdRng, n: usize) -> Vec<u64> {
    (0..n).map(|_| rng.gen_range(0.0..=1.0f64).to_bits()).collect()
}

#[test]
fn sampler_hits_bounds_and_mode() {
    let t = task(2.0, 4.0, 10.0);
    let f_mode = (4.0 - 2.0) / (10.0 - 2.0);
    let series = sample_task(t, &bits(&[0.0, 1.0, f_mode]), &inv_cdf, &add).ok().unwrap();
    assert_eq!(values(&series.samples), vec![2.0, 10.0, 4.0]);
    assert_eq!(f64::from_bits(series.min), 2.0);
    assert_eq!(f64::from_bits(series.max), 10.0);
    assert_eq!(f64::from_bits(series.sum), 16.0);
}

#[test]
fn samples_stay_within_task_bounds() {
    let mut rng = StdRng::seed_from_u64(7);
    let t = task(1.0, 1.5, 8.0);
    let series = sample_task(t, &draws(&mut rng, 10_000), &inv_cdf, &add).ok().unwrap();
    for s in values(&series.samples) {
        assert!((1.0..=8.0).contains(&s), "{s}");
    }
    let lo = f64::from_bits(series.min);
    let hi = f64::from_bits(series.max);
    assert!(values(&series.samples).iter().all(|s| lo <= *s && *s <= hi));
}

#[test]
fn triangular_mean_with_fixed_seed() {
    let mut rng = StdRng::seed_from_u64(2024);
    let n = 100_000;
    let tasks = vec![task(0.0, 5.0, 10.0)];
    let variates = vec![draws(&mut rng, n)];
    let out = run_monte_carlo(&tasks, &variates, n, &inv_cdf, &add).ok().unwrap();
    let mean = f64::from_bits(out[0].sum) / n as f64;
    assert!((mean - 5.0).abs() < 0.05, "{mean}");
    let total_mean = f64::from_bits(out[1].sum) / n as f64;
    assert!((total_mean - 5.0).abs() < 0.05, "{total_mean}");
}

#[test]
fn run_is_deterministic_for_a_seed() {
    let tasks = vec![task(0.0, 1.0, 3.0), task(2.0, 2.5, 4.0)];
    let run = |seed: u64| {
        let mut rng = StdRng::seed_from_u64(seed);
        let variates = vec![draws(&mut rng, 50), draws(&mut rng, 50)];
        run_monte_carlo(&tasks, &variates, 50, &inv_cdf, &add).ok().unwrap()
    };
    let a = run(11);
    let b = run(11);
    for (x, y) in a.iter().zip(b.iter()) {
        assert_eq!(x.samples, y.samples);
        assert_eq!(x.sum, y.sum);
    }
}

#[test]
fn total_is_the_index_wise_sum() {
    let mut rng = StdRng::seed_from_u64(99);
    let tasks = vec![task(0.0, 2.0, 5.0), task(1.0, 1.0, 2.0), task(3.0, 7.0, 7.5)];
    let n = 1_000;
    let variates: Vec<Vec<u64>> = (0..3).map(|_| draws(&mut rng, n)).collect();
    let out = run_monte_carlo(&tasks, &variates, n, &inv_cdf, &add).ok().unwrap();
    assert_eq!(out.len(), 4);
    for i in 0..n {
        let mut expected = 0.0;
        for series in &out[..3] {
            expected += f64::from_bits(series.samples[i]);
        }
        assert_eq!(f64::from_bits(out[3].samples[i]), expected);
    }
    let mut expected_sum = 0.0;
    for s in values(&out[3].samples) {
        expected_sum += s;
    }
    assert_eq!(f64::from_bits(out[3].sum), expected_sum);
}

#[test]
fn total_of_given_series() {
    let make = |v: &[f64]| SampledSeries { samples: bits(v), min: 0, max: 0, sum: 0 };
    let series = vec![make(&[1.0, 2.0, 3.0]), make(&[10.0, 20.0, 30.0]), make(&[0.5, 0.25, -1.0])];
    let total = total_series(&series, 3, &add).ok().unwrap();
    assert_eq!(values(&total.samples), vec![11.5, 22.25, 32.0]);
    assert_eq!(f64::from_bits(total.min), 11.5);
    assert_eq!(f64::from_bits(total.max), 32.0);
    assert_eq!(f64::from_bits(total.sum), 65.75);
    assert!(matches!(total_series(&Vec::new(), 0, &add), Err(Error::EmptySample)));
}

#[test]
fn sum_runs_left_to_right_from_zero() {
    assert_eq!(f64::from_bits(sum_in_order(&bits(&[1.5, 2.5, -1.0]), &add)), 3.0);
    assert_eq!(sum_in_order(&Vec::new(), &add), 0.0f64.to_bits());
    assert_eq!(f64::from_bits(sum_in_order(&bits(&[1.0e16, 1.0, 1.0]), &add)), 1.0e16);
}

#[test]
fn zero_samples_is_an_error() {
    let tasks = vec![task(0.0, 5.0, 10.0)];
    let variates = vec![Vec::new()];
    assert!(matches!(run_monte_carlo(&tasks, &variates, 0, &inv_cdf, &add), Err(Error::EmptySample)));
    assert!(matches!(sample_task(tasks[0], &Vec::new(), &inv_cdf, &add), Err(Error::EmptySample)));
}

#[test]
fn degenerate_task_is_an_error() {
    let tasks = vec![task(0.0, 5.0, 10.0), task(5.0, 5.0, 5.0)];
    let variates = vec![bits(&[0.5]), bits(&[0.5])];
    assert!(matches!(
        run_monte_carlo(&tasks, &variates, 1, &inv_cdf, &add),
        Err(Error::DegenerateDistribution)
    ));
    assert!(matches!(
        sample_task(task(3.0, 1.0, 4.0), &bits(&[0.5]), &inv_cdf, &add),
        Err(Error::DegenerateDistribution)
    ));
}

#[test]
fn variate_outside_unit_interval_is_an_error() {
    let tasks = vec![task(0.0, 5.0, 10.0)];
    let variates = vec![bits(&[0.5, 1.5])];
    assert!(matches!(run_monte_carlo(&tasks, &variates, 2, &inv_cdf, &add), Err(Error::Domain)));
    assert!(matches!(
        sample_task(tasks[0], &bits(&[f64::NAN]), &inv_cdf, &add),
        Err(Error::Domain)
    ));
}

#[test]
fn no_tasks_gives_a_zero_total() {
    let out = run_monte_carlo(&Vec::new(), &Vec::new(), 3, &inv_cdf, &add).ok().unwrap();
    assert_eq!(out.len(), 1);
    assert_eq!(values(&out[0].samples), vec![0.0, 0.0, 0.0]);
}
