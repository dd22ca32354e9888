//! Timing and performance utilities.

use vstd::prelude::*;
use std::time::Duration;
use crate::utils::clock::{instant_now, elapsed_since};
use crate::utils::text::{decimal, push_decimal};

verus! {

/// Runs `f` and returns its result with the time it took.
pub fn measure_time<F: FnOnce() -> R, R>(f: F) -> (r: (R, Duration))
    requires
        f.requires(()),
    ensures
        f.ensures((), r.0),
{
    let start = instant_now();
    let result = f();
    let duration = elapsed_since(&start);
    (result, duration)
}

/// Average time per operation, in nanoseconds, of `operations` operations
/// that took `duration_nanos` nanoseconds in all: the total, truncated to
/// 64 bits, divided by the count; 0 when there are no operations.
pub fn calculate_latency(duration_nanos: u128, operations: usize) -> (r: u64)
    ensures
        operations > 0 ==> r == (duration_nanos as nat % 0x1_0000_0000_0000_0000nat) / (operations as nat),
        operations == 0 ==> r == 0,
{
    if operations > 0 {
        let total = (duration_nanos % 0x1_0000_0000_0000_0000) as u64;
        total / (operations as u64)
    } else {
        0
    }
}

/// How a duration under one second is displayed: whole milliseconds with
/// two zero decimals and `ms` when there is at least one, otherwise whole
/// microseconds with two zero decimals and `μs`.
pub open spec fn subsecond_duration_text(nanos: nat) -> Seq<char> {
    if nanos / 1_000_000 > 0 {
        decimal(nanos / 1_000_000) + ".00ms"@
    } else {
        decimal(nanos / 1_000) + ".00μs"@
    }
}

/// Displays a duration of `duration_nanos` nanoseconds, under one second
/// (see `subsecond_duration_text`).
pub fn format_subsecond_duration(duration_nanos: u128) -> (s: String)
    requires
        duration_nanos < 1_000_000_000,
    ensures
        s@ == subsecond_duration_text(duration_nanos as nat),
{
    let millis = duration_nanos / 1_000_000;
    let mut s = String::new();
    if millis > 0 {
        push_decimal(&mut s, millis);
        s.append(".00ms");
    } else {
        push_decimal(&mut s, duration_nanos / 1_000);
        s.append(".00μs");
    }
    s
}

} // verus!
