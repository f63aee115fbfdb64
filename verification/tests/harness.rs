//! The measurement machinery: targets, the paired loop and calibration.

use std::time::{Duration, Instant};

use tango_bench::{
    benchmark_fn, benchmark_fn_with_setup, calibrate_pair, calibration_counts,
    estimate_iterations_per_ms, measure_function_pair, median_execution_time, BenchmarkFn,
    GenAndFunc, GeneratorBenchmarks, IntoBenchmarks, MeasureTarget, MeasurementSettings,
    StaticValue, _benchmark_fn, NS_TO_MS,
};

fn spin_for(duration: Duration) {
    let start = Instant::now();
    while start.elapsed() < duration {
        std::hint::spin_loop();
    }
}

fn sum_up_to(limit: u64) -> u64 {
    let mut total: u64 = 0;
    let mut i: u64 = 1;
    while i <= limit {
        total += std::hint::black_box(i);
        i += 1;
    }
    total
}

fn quick_settings(max_samples: usize, max_duration_ns: u64) -> MeasurementSettings {
    MeasurementSettings {
        max_samples,
        max_duration_ns,
        ..Default::default()
    }
}

/// Basic check of the measurement code.
///
/// Possibly brittle: there is no guarantee the scheduler keeps the timing
/// exact, so the median of several runs is used.
#[test]
fn check_measure_time() {
    let delay = 1;
    let mut target = benchmark_fn("foo", move || spin_for(Duration::from_millis(delay)));

    let median = median_execution_time(&mut *target, 10) / NS_TO_MS;
    assert_eq!(delay, median);
}

#[test]
fn estimate_iterations_is_at_least_one() {
    let mut target = benchmark_fn("noop", || 0u64);
    assert!(target.estimate_iterations(1) >= 1);
    assert!(target.estimate_iterations(0) >= 1);

    let mut generator = StaticValue(10u64, 3u64);
    let base = _benchmark_fn("sum", |h: &u64, n: &u64| h + n);
    let cand = _benchmark_fn("mul", |h: &u64, n: &u64| h * n);
    let estimate = estimate_iterations_per_ms(&mut generator, &base, &cand);
    assert!(estimate >= 1);
    // the pilot estimate is rounded down to a multiple of ten, or floored at 1
    assert!(estimate == 1 || estimate % 10 == 0);
}

#[test]
fn paired_measurement_is_paired() {
    let mut generator = StaticValue(1000u64, 3u64);
    let base = _benchmark_fn("sum", |h: &u64, n: &u64| sum_up_to(h + n));
    let cand = _benchmark_fn("sum_more", |h: &u64, n: &u64| sum_up_to(h + n + 10));
    let settings = quick_settings(40, 1_000_000_000);
    let (base_time, cand_time, diff) = measure_function_pair(
        &mut generator,
        &base,
        &cand,
        &settings,
    );
    assert_eq!(base_time.len(), cand_time.len());
    assert_eq!(base_time.len(), diff.len());
    assert!(base_time.len() <= 40);
    assert!(base_time.len() % 10 == 0 || base_time.len() == 40);
    for i in 0..diff.len() {
        assert_eq!(diff[i], cand_time[i] - base_time[i]);
        assert!(base_time[i] >= 0 && cand_time[i] >= 0);
    }
}

#[test]
fn deadline_trips_on_a_multiple_of_ten() {
    let mut generator = StaticValue(1000u64, 3u64);
    let base = _benchmark_fn("sum", |h: &u64, n: &u64| sum_up_to(h + n));
    let cand = _benchmark_fn("sum_again", |h: &u64, n: &u64| sum_up_to(h + n));
    // an already-expired deadline stops the loop before the first sample
    let settings = quick_settings(100, 0);
    let (base_time, cand_time, diff) = measure_function_pair(
        &mut generator,
        &base,
        &cand,
        &settings,
    );
    assert_eq!(base_time.len(), 0);
    assert_eq!(cand_time.len(), 0);
    assert_eq!(diff.len(), 0);
}

#[test]
fn registry_builds_one_target_per_generator() {
    let mut benchmarks = GeneratorBenchmarks::with_generators(vec![10u64, 20u64], make_generator);
    benchmarks.add("sum", |h: &u64, n: &u64| h + n);
    let mut targets = benchmarks.into_benchmarks();
    assert_eq!(targets.len(), 2);
    for target in targets.iter_mut() {
        assert_eq!(target.name(), "sum/StaticValue");
        assert!(target.estimate_iterations(1) >= 1);
        let _ = target.measure(3);
    }
}

fn make_generator(p: u64) -> StaticValue<u64, u64> {
    StaticValue(p, 1)
}

#[test]
fn paired_target_reports_joined_name() {
    let f = _benchmark_fn("probe_sum", |h: &u64, n: &u64| h + n);
    let target = GenAndFunc::new(f, StaticValue(1u64, 2u64));
    assert_eq!(target.name(), "probe_sum/StaticValue");
}

/// Self-comparison should almost never be flagged significant: the expected
/// false-positive rate of the decision rule is about one percent.
#[test]
fn calibration_self_comparison_stays_quiet() {
    let mut generator = StaticValue((), ());
    let base = _benchmark_fn("sum_5000", |_h: &(), _n: &()| sum_up_to(5000));
    let cand = _benchmark_fn("sum_5000", |_h: &(), _n: &()| sum_up_to(5000));
    let settings = quick_settings(1_000_000, 30_000_000);
    let significant = calibrate_pair(&mut generator, &base, &cand, 10, &settings);
    assert!(
        significant <= 2,
        "self-comparison flagged significant {} times out of 10",
        significant
    );
}

#[test]
fn setup_cost_stays_outside_of_the_timed_region() {
    let target = benchmark_fn_with_setup(
        "sum_vec",
        |input: Vec<u64>, n: &u64| input.iter().sum::<u64>() + n,
        |h: &u64| vec![*h; 16],
    );
    assert_eq!(target.name(), "sum_vec");
    let needles = [1u64, 2, 3];
    let _ticks = target.measure(&7u64, &needles);
}

#[test]
fn calibration_counts_cover_every_pair() {
    let mut generator = StaticValue(100u64, 3u64);
    let fast = _benchmark_fn("fast", |h: &u64, n: &u64| sum_up_to(h + n));
    let slow = _benchmark_fn("slow", |h: &u64, n: &u64| sum_up_to((h + n) * 20));
    let pairs = vec![(&fast, &slow)];
    let settings = quick_settings(1_000_000, 10_000_000);
    let counts = calibration_counts(&mut generator, &pairs, 3, &settings);
    assert_eq!(counts.len(), 1);
    let (h0_base, h0_candidate, h1) = counts[0];
    assert!(h0_base <= 3 && h0_candidate <= 3 && h1 <= 3);
}
