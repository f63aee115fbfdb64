//! Paired micro-benchmark harness.
//!
//! The library measures two functions (a baseline and a candidate) on matched
//! inputs, interleaving their samples over short time windows, and decides
//! whether the observed difference is statistically significant.  All
//! statistics are kept as exact integers (sums and sums of squares), so the
//! contracts pin the computed values down precisely: the mean of a series is
//! the fraction `sum / n` and its sample variance is
//! `(n * sum_sq - sum^2) / (n * (n - 1))`.

pub mod analysis;
pub mod bench;
pub mod outliers;
pub mod ratio;
pub mod sort;
pub mod summary;
pub mod timing;

pub use analysis::calculate_run_result;
pub use analysis::is_significant;
pub use analysis::RunResult;
pub use bench::benchmark_fn;
pub use bench::benchmark_fn_with_setup;
pub use bench::calibrate_pair;
pub use bench::calibration_counts;
pub use bench::estimate_iterations_per_ms;
pub use bench::measure_function_pair;
pub use bench::median_execution_time;
pub use bench::BenchmarkFn;
pub use bench::GenAndFunc;
pub use bench::Generator;
pub use bench::GeneratorBenchmarks;
pub use bench::IntoBenchmarks;
pub use bench::MeasureTarget;
pub use bench::MeasurementSettings;
pub use bench::RunOpts;
pub use bench::StaticValue;
pub use bench::_benchmark_fn;
pub use bench::NS_TO_MS;
pub use outliers::iqr_variance_thresholds;
pub use outliers::max_variance_thresholds;
pub use outliers::max_variance_thresholds_with_balance;
pub use summary::RunningSummary;
pub use summary::RunningVariance;
pub use summary::Summary;
pub use summary::MAX_ABS_SAMPLE;
pub use summary::MAX_SAMPLE_COUNT;
