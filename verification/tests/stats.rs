//! Statistical summary behaviour: exact single-pass statistics, running
//! snapshots and the running variance.

use rand::rngs::SmallRng;
use rand::RngCore;
use rand::SeedableRng;
use tango_bench::{RunningSummary, RunningVariance, Summary};

fn mean_of(s: &Summary) -> f64 {
    s.sum as f64 / s.n as f64
}

fn variance_of(s: &Summary) -> f64 {
    let (num, den) = s.variance_parts();
    num as f64 / den as f64
}

fn naive_variance(values: &[i64]) -> f64 {
    let n = values.len() as f64;
    let mean = values.iter().copied().sum::<i64>() as f64 / n;
    let mut sum_of_squares = 0.;
    for value in values.iter().copied() {
        sum_of_squares += (value as f64 - mean).powi(2);
    }
    sum_of_squares / (n - 1.)
}

fn summary_statistics_hold() {
    for i in 2i64..100 {
        let values = (1..=i).collect::<Vec<i64>>();
        let stat = Summary::from(&values).unwrap();

        let sum = (i * (i + 1)) as f64 / 2.;
        let expected_mean = sum / i as f64;
        let expected_variance = naive_variance(values.as_slice());

        assert_eq!(stat.min, 1);
        assert_eq!(stat.n, i as usize);
        assert_eq!(stat.max, i);
        let mean = mean_of(&stat);
        let variance = variance_of(&stat);
        assert!(
            (mean - expected_mean).abs() < 1e-5,
            "Expected close to: {}, given: {}",
            expected_mean,
            mean
        );
        assert!(
            (variance - expected_variance).abs() < 1e-5,
            "Expected close to: {}, given: {}",
            expected_variance,
            variance
        );
    }
}

#[test]
fn check_summary_statistics() {
    summary_statistics_hold();
}

#[test]
fn lib_check_summary_statistics() {
    summary_statistics_hold();
}

#[test]
fn check_summary_statistics_types() {
    let _ = Summary::from(<&[i64]>::default());
    let _ = Summary::from(&Vec::<i64>::default());
    let _ = Summary::from([0i64; 0].as_slice());
}

#[test]
fn lib_check_summary_statistics_types() {
    let _ = Summary::from(<&[i64]>::default());
    let _ = Summary::from(&Vec::<i64>::default());
}

#[test]
fn check_naive_variance() {
    assert_eq!(naive_variance(&[1, 2, 3]), 1.0);
    assert_eq!(naive_variance(&[1, 2, 3, 4, 5]), 2.5);
}

#[test]
fn lib_check_naive_variance() {
    assert_eq!(naive_variance(&[1, 2, 3]), 1.0);
    assert_eq!(naive_variance(&[1, 2, 3, 4, 5]), 2.5);
}

fn running_variance_matches_expectation() {
    let input = [1i64, 2, 3, 4, 5, 6, 7];
    let mut rv = RunningVariance::new();
    let mut variances: Vec<f64> = Vec::new();
    for v in input {
        let (num, den) = rv.push(v);
        variances.push(num as f64 / den as f64);
    }
    let expected = &[0., 0.5, 1., 1.6666, 2.5, 3.5, 4.6666];

    assert_eq!(variances.len(), expected.len());

    for (value, expected_value) in variances.iter().zip(expected) {
        assert!(
            (value - expected_value).abs() < 1e-3,
            "Expected close to: {}, given: {}",
            expected_value,
            value
        );
    }
}

#[test]
fn check_running_variance() {
    running_variance_matches_expectation();
}

#[test]
fn lib_check_running_variance() {
    running_variance_matches_expectation();
}

#[test]
fn check_running_variance_stress_test() {
    let mut rng = SmallRng::seed_from_u64(0);
    let mut rv = RunningVariance::new();
    let mut last = (0i128, 1i128);
    for _ in 0..=10_000_000u32 {
        last = rv.push(rng.next_u32() as i64);
    }
    assert!(last.0 as f64 / last.1 as f64 > 0.);
}

#[test]
fn lib_check_running_variance_stress_test() {
    let mut rng = SmallRng::seed_from_u64(0);
    let mut rs = RunningSummary::new();
    let mut last = Summary::from(&[0i64]).unwrap();
    for _ in 0..=1_000_000u32 {
        last = rs.push(rng.next_u32() as i64);
    }
    assert!(variance_of(&last) > 0.);
}

#[test]
fn summary_of_empty_series_is_none() {
    let empty: Vec<i64> = Vec::new();
    assert!(Summary::from(&empty).is_none());
}

#[test]
fn summary_on_one_to_five() {
    let stat = Summary::from(&[1i64, 2, 3, 4, 5]).unwrap();
    assert_eq!(stat.n, 5);
    assert_eq!(stat.min, 1);
    assert_eq!(stat.max, 5);
    assert_eq!(mean_of(&stat), 3.0);
    assert_eq!(variance_of(&stat), 2.5);
    let (mean_num, mean_den) = stat.mean_parts();
    assert_eq!((mean_num, mean_den), (15, 5));
}

#[test]
fn summary_counts_every_element() {
    for len in 1usize..40 {
        let values = vec![7i64; len];
        assert_eq!(Summary::from(&values).unwrap().n, values.len());
    }
}

#[test]
fn mean_lies_between_min_and_max() {
    let inputs: [&[i64]; 4] = [&[3], &[-5, 10], &[1, 1, 1], &[-100, 0, 100, 17]];
    for input in inputs {
        let s = Summary::from(input).unwrap();
        let mean = mean_of(&s);
        assert!(s.min as f64 <= mean && mean <= s.max as f64);
        let (num, _) = s.variance_parts();
        assert!(num >= 0);
    }
}

#[test]
fn running_snapshots_are_prefix_consistent() {
    let input = [5i64, -3, 12, 12, 0, 7];
    let snapshots = Summary::running(&input);
    assert_eq!(snapshots.len(), input.len());
    for (k, snapshot) in snapshots.iter().enumerate() {
        let from_prefix = Summary::from(&input[..=k]).unwrap();
        assert_eq!(snapshot.n, from_prefix.n);
        assert_eq!(snapshot.min, from_prefix.min);
        assert_eq!(snapshot.max, from_prefix.max);
        assert_eq!(snapshot.sum, from_prefix.sum);
        assert_eq!(snapshot.sum_sq, from_prefix.sum_sq);
    }
}
