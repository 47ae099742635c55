//! Moments and spans of time.
use std::time::{Duration, Instant};
use vstd::prelude::*;

verus! {

/// A moment of the monotonic clock of std. The library carries such values and reads nothing in
/// them.
#[verifier::external_type_specification]
#[verifier::external_body]
pub struct ExInstant(Instant);

/// Calls `Instant::now`. Nothing is promised of the moment that comes back.
#[verifier::external_body]
pub(crate) fn now() -> (moment: Instant) {
    Instant::now()
}

/// The time from one moment to another, as `Instant::saturating_duration_since` gives it.
pub uninterp spec fn time_between(since: Instant, moment: Instant) -> Duration;

/// `Instant::saturating_duration_since` gives the time from an earlier moment to this one. What it
/// gives depends on the two moments alone.
pub assume_specification[ Instant::saturating_duration_since ](
    moment: &Instant,
    earlier: Instant,
) -> (time: Duration)
    ensures
        time == time_between(earlier, *moment),
;

/// The time from a moment until now. It depends on when the clock is read, so which moment now is
/// stays open.
pub(crate) fn elapsed(since: Instant) -> (time: Duration)
    ensures
        exists|moment: Instant| time == #[trigger] time_between(since, moment),
{
    now().saturating_duration_since(since)
}

/// The length of a duration in nanoseconds, as `Duration::as_nanos` gives it.
pub uninterp spec fn nanos_of(duration: Duration) -> nat;

/// `Duration::from_millis` makes a duration of that many milliseconds.
pub assume_specification[ Duration::from_millis ](millis: u64) -> (duration: Duration)
    ensures
        nanos_of(duration) == millis * 1_000_000,
;

/// `Duration::as_secs` gives the whole seconds of a duration.
pub assume_specification[ Duration::as_secs ](duration: &Duration) -> (seconds: u64)
    ensures
        seconds == nanos_of(*duration) / 1_000_000_000,
;

} // verus!
