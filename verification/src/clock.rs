//! Reading the system clock.
use vstd::prelude::*;
use std::time::{Duration, Instant, SystemTime, UNIX_EPOCH};

verus! {

#[verifier::external_type_specification]
#[verifier::external_body]
pub struct ExSystemTime(SystemTime);

#[verifier::external_type_specification]
#[verifier::external_body]
pub struct ExInstant(Instant);

/// Trusted: calls `Instant::now`. Nothing is stated of the result, which
/// is the moment of the call.
#[verifier::external_body]
pub(crate) fn instant_now() -> Instant {
    Instant::now()
}

/// Trusted: calls `Instant::elapsed`. Nothing is stated of the result,
/// which depends on the moment of the call.
#[verifier::external_body]
fn elapsed_since(start: &Instant) -> Duration {
    start.elapsed()
}

/// Trusted: calls `Duration::as_micros`. Nothing is stated of the result:
/// the duration is an opaque value here, read from the clock.
#[verifier::external_body]
fn duration_micros(d: &Duration) -> u128 {
    d.as_micros()
}

/// The whole microseconds since `start`.
pub(crate) fn micros_since(start: &Instant) -> u128 {
    let d = elapsed_since(start);
    duration_micros(&d)
}

/// The whole nanoseconds since `start`.
pub(crate) fn nanos_since(start: &Instant) -> u128 {
    let d = elapsed_since(start);
    duration_nanos(&d)
}

/// Trusted: calls `SystemTime::now`. Nothing is stated of the result,
/// which is the moment of the call.
#[verifier::external_body]
fn system_now() -> SystemTime {
    SystemTime::now()
}

/// Trusted: calls `SystemTime::duration_since` with `UNIX_EPOCH`; `None`
/// where std reports that `t` is before the epoch. Nothing more is stated.
#[verifier::external_body]
fn since_unix_epoch(t: &SystemTime) -> Option<Duration> {
    t.duration_since(UNIX_EPOCH).ok()
}

/// Trusted: calls `Duration::as_millis`. Nothing is stated of the result:
/// the duration is an opaque value here, read from the clock.
#[verifier::external_body]
fn duration_millis(d: &Duration) -> u128 {
    d.as_millis()
}

/// Trusted: calls `Duration::as_secs`. Nothing is stated of the result:
/// the duration is an opaque value here, read from the clock.
#[verifier::external_body]
fn duration_secs(d: &Duration) -> u64 {
    d.as_secs()
}

/// Trusted: calls `Duration::as_nanos`. Nothing is stated of the result:
/// the duration is an opaque value here, read from the clock.
#[verifier::external_body]
fn duration_nanos(d: &Duration) -> u128 {
    d.as_nanos()
}

/// Milliseconds since the Unix epoch; `None` if the clock reads a time
/// before the epoch.
pub fn unix_time_millis() -> Option<u128> {
    let now = system_now();
    match since_unix_epoch(&now) {
        Some(d) => Some(duration_millis(&d)),
        None => None,
    }
}

/// Whole seconds since the Unix epoch; `None` if the clock reads a time
/// before the epoch.
pub fn unix_time_secs() -> Option<u64> {
    let now = system_now();
    match since_unix_epoch(&now) {
        Some(d) => Some(duration_secs(&d)),
        None => None,
    }
}

/// A fine-grained tick counter for benchmarks: nanoseconds since the Unix
/// epoch, modulo 2^64 (0 if the clock reads a time before the epoch).
/// Differences of two readings measure the time in between.
pub fn read_timer() -> u64 {
    let now = system_now();
    match since_unix_epoch(&now) {
        Some(d) => (duration_nanos(&d) % 18446744073709551616u128) as u64,
        None => 0,
    }
}

} // verus!
