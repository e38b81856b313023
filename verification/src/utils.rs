use vstd::prelude::*;

verus! {

#[verifier::external_type_specification]
#[verifier::external_body]
pub struct ExInstant(std::time::Instant);

/// Relies on std::time::Instant being a plain Copy value: its derived
/// `clone` returns the same instant.
pub assume_specification[ <std::time::Instant as core::clone::Clone>::clone ](
    v: &std::time::Instant,
) -> (r: std::time::Instant)
    ensures
        r == *v,
;

/// Relies on std::time::Instant::now: a reading of the monotonic clock.
#[verifier::external_body]
fn instant_now() -> std::time::Instant {
    std::time::Instant::now()
}

/// Relies on std::time::Instant::elapsed: the time since `start`, as of the
/// call.
#[verifier::external_body]
fn instant_elapsed(start: &std::time::Instant) -> std::time::Duration {
    start.elapsed()
}

/// Relies on std::time::Duration::as_nanos: the duration in whole
/// nanoseconds.
#[verifier::external_body]
fn duration_as_nanos(d: &std::time::Duration) -> u128 {
    d.as_nanos()
}

/// A wall-clock deadline: a start instant plus a threshold in nanoseconds.
/// Purely a loop-termination aid for time-budgeted search; the rollout in
/// flight always completes before the deadline is consulted again.
#[derive(Debug, Clone)]
pub struct TimeKeeper {
    pub start_time: std::time::Instant,
    pub time_threshold_ns: u64,
}

impl TimeKeeper {
    pub fn new(time_threshold_ns: u64) -> (r: TimeKeeper)
        ensures
            r.time_threshold_ns == time_threshold_ns,
    {
        TimeKeeper { start_time: instant_now(), time_threshold_ns }
    }

    /// Whether the threshold has elapsed since the start instant. The result
    /// depends on the clock, so nothing is promised of it; callers must
    /// terminate either way.
    #[inline]
    pub fn is_time_over(&self) -> bool {
        let elapsed = instant_elapsed(&self.start_time);
        duration_as_nanos(&elapsed) >= self.time_threshold_ns as u128
    }
}

} // verus!
