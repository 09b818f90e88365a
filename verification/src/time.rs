//! Precision timing: a thin monotonic-clock timer used to measure
//! allocation latency in nanoseconds.

use vstd::prelude::*;

verus! {

#[verifier::external_type_specification]
#[verifier::external_body]
pub struct ExInstant(std::time::Instant);

/// Relies on `std::time::Instant::now`: reads the monotonic clock.  The
/// value depends on when the call runs, so nothing is promised of it.
#[verifier::external_body]
pub(crate) fn instant_now() -> std::time::Instant {
    std::time::Instant::now()
}

/// Relies on `std::time::Instant::elapsed`: the time since `start` on the
/// monotonic clock, converted to nanoseconds.  The value depends on when
/// the call runs, so nothing is promised of it.
#[verifier::external_body]
pub(crate) fn elapsed_ns_since(start: &std::time::Instant) -> u64 {
    start.elapsed().as_nanos() as u64
}

/// A timer started at construction and read in nanoseconds or microseconds.
#[derive(Debug, Clone, Copy)]
pub struct PrecisionTimer {
    start: std::time::Instant,
}

impl PrecisionTimer {
    /// Starts a timer at the current instant.
    pub fn start() -> Self {
        PrecisionTimer { start: instant_now() }
    }

    /// Nanoseconds elapsed since the timer started.
    pub fn elapsed_nanos(&self) -> u64 {
        elapsed_ns_since(&self.start)
    }

    /// Microseconds elapsed since the timer started.
    pub fn elapsed_micros(&self) -> u64 {
        elapsed_ns_since(&self.start) / 1000
    }
}

} // verus!
