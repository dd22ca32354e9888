//! The clocks the library reads: wall-clock time for timestamps and a
//! monotonic clock for measuring durations. Nothing is promised of what a
//! clock reads.

use vstd::prelude::*;
use std::time::{Duration, Instant, SystemTime, SystemTimeError};

verus! {

/// std's `time::SystemTime`, a wall-clock reading.
#[verifier::external_type_specification]
#[verifier::external_body]
pub struct ExSystemTime(std::time::SystemTime);

/// std's `time::SystemTimeError`, for a reading before a reference time.
#[verifier::external_type_specification]
#[verifier::external_body]
pub struct ExSystemTimeError(std::time::SystemTimeError);

/// std's `time::Instant`, a monotonic clock reading.
#[verifier::external_type_specification]
#[verifier::external_body]
pub struct ExInstant(std::time::Instant);

/// std `SystemTime::now`: the current wall-clock time.
#[verifier::external_body]
fn system_now() -> SystemTime {
    SystemTime::now()
}

/// std `SystemTime::duration_since(UNIX_EPOCH)`: the time elapsed since
/// the Unix epoch, an error when `t` is earlier.
#[verifier::external_body]
fn since_unix_epoch(t: &SystemTime) -> Result<Duration, SystemTimeError> {
    t.duration_since(std::time::UNIX_EPOCH)
}

/// Largest duration std represents, in nanoseconds: `u64::MAX` seconds
/// and 999 999 999 nanoseconds.
pub const MAX_DURATION_NANOS: u128 = 18_446_744_073_709_551_615u128 * 1_000_000_000u128 + 999_999_999u128;

/// std `Duration::as_nanos`: the whole duration in nanoseconds, which
/// never exceeds what a duration can hold.
#[verifier::external_body]
pub(crate) fn duration_nanos(d: &Duration) -> (r: u128)
    ensures
        r <= MAX_DURATION_NANOS,
{
    d.as_nanos()
}

/// std `Instant::now`: the current reading of the monotonic clock.
#[verifier::external_body]
pub(crate) fn instant_now() -> Instant {
    Instant::now()
}

/// std `Instant::elapsed`: time passed since `start`.
#[verifier::external_body]
pub(crate) fn elapsed_since(start: &Instant) -> Duration {
    start.elapsed()
}

/// Nanoseconds since the Unix epoch by the wall clock; `None` when the
/// clock reads earlier than the epoch.
fn nanos_since_epoch() -> (r: Option<u128>)
    ensures
        r matches Some(n) ==> n <= MAX_DURATION_NANOS,
{
    let now = system_now();
    match since_unix_epoch(&now) {
        Ok(d) => Some(duration_nanos(&d)),
        Err(_) => None,
    }
}

/// Whole seconds of a clock reading `nanos` nanoseconds after the Unix
/// epoch; 0 for a reading before the epoch (`None`).
pub fn epoch_secs(nanos: Option<u128>) -> (r: u64)
    requires
        nanos matches Some(n) ==> n <= MAX_DURATION_NANOS,
    ensures
        nanos matches Some(n) ==> r == n / 1_000_000_000,
        nanos is None ==> r == 0,
{
    match nanos {
        Some(n) => (n / 1_000_000_000) as u64,
        None => 0,
    }
}

/// A seed from a clock reading `nanos` nanoseconds after the Unix epoch:
/// the nanoseconds modulo 2^64; 0 for a reading before the epoch (`None`).
pub fn epoch_seed(nanos: Option<u128>) -> (r: u64)
    ensures
        nanos matches Some(n) ==> r == n % 0x1_0000_0000_0000_0000,
        nanos is None ==> r == 0,
{
    match nanos {
        Some(n) => (n % 0x1_0000_0000_0000_0000) as u64,
        None => 0,
    }
}

/// Whole seconds since the Unix epoch by the wall clock (see
/// `epoch_secs`); 0 when the clock reads earlier than the epoch.
pub fn unix_time_secs() -> u64 {
    epoch_secs(nanos_since_epoch())
}

/// A seed taken from the wall clock (see `epoch_seed`). Two calls may
/// give different seeds.
pub fn clock_seed() -> u64 {
    epoch_seed(nanos_since_epoch())
}

} // verus!
