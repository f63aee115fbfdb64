//! Outlier filters and the run-result builder.

use tango_bench::{
    calculate_run_result, iqr_variance_thresholds, max_variance_thresholds,
    max_variance_thresholds_with_balance, Summary,
};

#[test]
fn check_filter_outliers() {
    let input = vec![
        1i64, -2, 3, -4, 5, -6, 7, -8, 9, -10, //
        101, -102,
    ];

    let (min, max) = max_variance_thresholds(input, 3).unwrap();
    assert!(min < 1, "Minimum is: {}", min);
    assert!(10 < max && max <= 101, "Maximum is: {}", max);
}

#[test]
fn max_variance_thresholds_are_symmetric() {
    let input = vec![1i64, -2, 3, -4, 5, -6, 7, -8, 9, -10, 101, -102];
    let (min, max) = max_variance_thresholds(input, 3).unwrap();
    assert_eq!(min, -max);
}

#[test]
fn max_variance_thresholds_quiet_input_has_none() {
    let input = vec![10i64, -10, 10, -10, 10, -10, 10, -10];
    assert_eq!(max_variance_thresholds(input, 2), None);
}

#[test]
fn iqr_thresholds_on_paired_differences() {
    let diff = vec![1i64, -2, 3, -4, 5, -6, 7, -8, 9, -10, 101, -102];
    let (low, high) = iqr_variance_thresholds(diff).unwrap();
    assert_eq!((low, high), (-10, 101));
    assert!(low <= high);
}

#[test]
fn iqr_thresholds_undetectable_on_tiny_input() {
    assert_eq!(iqr_variance_thresholds(vec![1i64, 2, 3]), None);
    assert_eq!(iqr_variance_thresholds(vec![]), None);
    assert_eq!(iqr_variance_thresholds(vec![5i64; 16]), None);
}

#[test]
fn iqr_filter_is_a_fixed_point_on_trimmed_data() {
    let diff = vec![1i64, -2, 3, -4, 5, -6, 7, -8, 9, -10, 101, -102];
    let (low, high) = iqr_variance_thresholds(diff.clone()).unwrap();
    let trimmed: Vec<i64> = diff.into_iter().filter(|v| low < *v && *v < high).collect();
    // a second application finds nothing more to trim
    assert_eq!(iqr_variance_thresholds(trimmed), None);
}

fn summary_of(values: &[i64]) -> Summary {
    Summary::from(values).unwrap()
}

#[test]
fn run_result_reports_trimmed_outliers() {
    let base = vec![100i64; 12];
    let cand = vec![101i64, 98, 103, 96, 105, 94, 107, 92, 109, 90, 201, -2];
    let diff: Vec<i64> = base.iter().zip(cand.iter()).map(|(b, c)| c - b).collect();
    let result = calculate_run_result(
        "base",
        "cand",
        summary_of(&base),
        summary_of(&cand),
        diff.clone(),
        true,
    )
    .unwrap();
    assert_eq!(result.name, "base/cand");
    assert_eq!(result.outliers + result.diff.n, diff.len());
    assert!(result.outliers > 0);
}

#[test]
fn run_result_with_filter_off_keeps_everything() {
    let base = vec![100i64; 12];
    let cand = vec![101i64, 98, 103, 96, 105, 94, 107, 92, 109, 90, 201, -2];
    let diff: Vec<i64> = base.iter().zip(cand.iter()).map(|(b, c)| c - b).collect();
    let result = calculate_run_result(
        "same",
        "same",
        summary_of(&base),
        summary_of(&cand),
        diff.clone(),
        false,
    )
    .unwrap();
    assert_eq!(result.name, "same");
    assert_eq!(result.outliers, 0);
    assert_eq!(result.diff.n, diff.len());
}

#[test]
fn constant_shift_is_significant() {
    // every sample of the candidate is 50% slower: infinite z, large shift
    let base = vec![100i64; 20];
    let cand = vec![150i64; 20];
    let diff: Vec<i64> = base.iter().zip(cand.iter()).map(|(b, c)| c - b).collect();
    let result = calculate_run_result(
        "base",
        "cand",
        summary_of(&base),
        summary_of(&cand),
        diff,
        false,
    )
    .unwrap();
    assert!(result.significant);
}

#[test]
fn degenerate_zero_difference_is_not_significant() {
    // identical samples: variance and mean of the difference are both zero
    let base = vec![100i64; 20];
    let diff = vec![0i64; 20];
    let result = calculate_run_result(
        "base",
        "cand",
        summary_of(&base),
        summary_of(&base),
        diff,
        false,
    )
    .unwrap();
    assert!(!result.significant);
}

#[test]
fn tiny_relative_shift_is_not_significant() {
    // a perfectly stable 0.1% shift: z is infinite but the effect is below
    // the half-percent floor
    let base = vec![100_000i64; 20];
    let cand = vec![100_100i64; 20];
    let diff: Vec<i64> = base.iter().zip(cand.iter()).map(|(b, c)| c - b).collect();
    let result = calculate_run_result(
        "base",
        "cand",
        summary_of(&base),
        summary_of(&cand),
        diff,
        false,
    )
    .unwrap();
    assert!(!result.significant);
}

#[test]
fn empty_difference_gives_no_result() {
    let base = vec![100i64; 4];
    let result = calculate_run_result(
        "base",
        "cand",
        summary_of(&base),
        summary_of(&base),
        Vec::new(),
        false,
    );
    assert!(result.is_none());
}

#[test]
fn balance_interval_accepts_balanced_outliers() {
    let input = vec![1i64, -2, 3, -4, 5, -6, 7, -8, 9, -10, 101, -102];
    // the scan fires with two candidate outliers left; one of the remaining
    // tail values is negative, inside the interval (0, 5)
    let balance = vec![None, None, Some((0usize, 5usize)), None];
    let r = max_variance_thresholds_with_balance(input, 3, &balance);
    assert_eq!(r, Some((-101, 101)));
}

#[test]
fn balance_interval_rejects_unbalanced_outliers() {
    let input = vec![1i64, -2, 3, -4, 5, -6, 7, -8, 9, -10, 101, -102];
    // the same jump is rejected when the negative-outlier count falls
    // outside the interval, and no later value jumps enough
    let balance = vec![None, None, Some((2usize, 5usize)), None];
    let r = max_variance_thresholds_with_balance(input, 3, &balance);
    assert_eq!(r, None);
}
