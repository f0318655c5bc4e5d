use vstd::prelude::*;

use std::time::{Duration, Instant, SystemTime};

verus! {

#[verifier::external_type_specification]
#[verifier::external_body]
pub struct ExInstant(std::time::Instant);

#[verifier::external_type_specification]
#[verifier::external_body]
pub struct ExSystemTime(std::time::SystemTime);

/// `Instant::now()`: the current monotonic instant. Nothing is promised of
/// the value, which depends on when it is called.
#[verifier::external_body]
pub(crate) fn instant_now() -> Instant {
    Instant::now()
}

/// `Instant::elapsed`: time passed since `at`. Depends on the clock, so
/// nothing is promised of the value.
#[verifier::external_body]
pub(crate) fn instant_elapsed(at: &Instant) -> Duration {
    at.elapsed()
}

/// `Duration::as_nanos`: whole nanoseconds in `d`. The value is not tied to
/// any spec of `Duration`, which this crate keeps opaque.
#[verifier::external_body]
pub(crate) fn duration_as_nanos(d: &Duration) -> u128 {
    d.as_nanos()
}

/// `Duration::as_millis`: whole milliseconds in `d`, kept as opaque as
/// `duration_as_nanos`.
#[verifier::external_body]
pub(crate) fn duration_as_millis(d: &Duration) -> u128 {
    d.as_millis()
}

/// `SystemTime::now()`: the wall clock, of which nothing is promised.
#[verifier::external_body]
pub(crate) fn system_time_now() -> SystemTime {
    SystemTime::now()
}

/// `SystemTime::duration_since(UNIX_EPOCH)`, with the error case (a clock
/// set before the epoch) turned into `None`. Nothing is promised of the value.
#[verifier::external_body]
pub(crate) fn since_unix_epoch(t: &SystemTime) -> Option<Duration> {
    t.duration_since(std::time::UNIX_EPOCH).ok()
}

/// Milliseconds since the Unix epoch by the wall clock, 0 when the clock
/// reads earlier than the epoch.
pub fn unix_millis() -> u128 {
    let now = system_time_now();
    match since_unix_epoch(&now) {
        Some(d) => duration_as_millis(&d),
        None => 0,
    }
}

} // verus!
