//! Trusted boundary around the platform's monotonic clock and the
//! do-not-optimize sink.
//!
//! Time readings are inherently non-deterministic, so nothing is promised
//! about the values these functions return; every caller is verified for all
//! possible outcomes.

use vstd::prelude::*;

verus! {

#[verifier::external_type_specification]
#[verifier::external_body]
pub struct ExInstant(std::time::Instant);

/// Relies on `std::time::Instant::now`: a reading of the monotonic clock.
#[verifier::external_body]
pub fn timer_start() -> std::time::Instant {
    std::time::Instant::now()
}

/// Relies on `std::time::Instant::elapsed`: nanoseconds since `start`,
/// truncated to 64 bits.
#[verifier::external_body]
pub fn timer_stop(start: &std::time::Instant) -> u64 {
    start.elapsed().as_nanos() as u64
}

/// Relies on `std::time::Instant::elapsed`: whether at least `nanos`
/// nanoseconds have passed since `start`.
#[verifier::external_body]
pub fn elapsed_at_least(start: &std::time::Instant, nanos: u64) -> bool {
    start.elapsed().as_nanos() >= nanos as u128
}

/// Relies on `std::hint::black_box`: an identity function the compiler
/// cannot see through, so measured work is not optimised away.
#[verifier::external_body]
pub fn sink<T>(value: T) -> (r: T)
    ensures
        r == value,
{
    std::hint::black_box(value)
}

} // verus!
