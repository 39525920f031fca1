//! The clocks, each read in one place: the wall clock, and the monotonic
//! clock that supervision measures its windows on.

use vstd::prelude::*;

verus! {

/// A reading of the wall clock, `std::time::SystemTime`.
#[verifier::external_type_specification]
#[verifier::external_body]
pub struct ExSystemTime(std::time::SystemTime);

/// A point in time of the monotonic clock, `std::time::Instant`.
#[verifier::external_type_specification]
#[verifier::external_body]
pub struct ExInstant(std::time::Instant);

/// Reads `std::time::SystemTime::now()`. Nothing is promised of the
/// reading: it depends on the machine's clock.
#[verifier::external_body]
fn system_now() -> (t: std::time::SystemTime) {
    std::time::SystemTime::now()
}

/// `SystemTime::duration_since(UNIX_EPOCH)`: the time from the epoch to
/// `t`, or `None` when `t` is before the epoch (the error, which only says
/// how far before, is dropped). Nothing is promised of the duration.
#[verifier::external_body]
fn since_unix_epoch(t: std::time::SystemTime) -> (d: Option<std::time::Duration>) {
    match t.duration_since(std::time::UNIX_EPOCH) {
        Ok(d) => Some(d),
        Err(_) => None,
    }
}

/// `Duration::as_nanos`: the whole nanoseconds of `d`. Nothing is stated
/// of the value: `Duration` is opaque here.
#[verifier::external_body]
fn duration_nanos(d: &std::time::Duration) -> (n: u128) {
    d.as_nanos()
}

/// `Duration::as_millis`: the whole milliseconds of `d`. Nothing is stated
/// of the value: `Duration` is opaque here.
#[verifier::external_body]
fn duration_millis(d: &std::time::Duration) -> (n: u128) {
    d.as_millis()
}

/// Reads `std::time::Instant::now()`, the monotonic clock. Nothing is
/// promised of the reading: it depends on the machine.
#[verifier::external_body]
pub(crate) fn monotonic_now() -> (t: std::time::Instant) {
    std::time::Instant::now()
}

/// `Instant::elapsed`: the monotonic time since `origin` (zero when the
/// clock reads earlier). Nothing is promised of the reading.
#[verifier::external_body]
fn elapsed_since(origin: &std::time::Instant) -> (d: std::time::Duration) {
    origin.elapsed()
}

/// The low 64 bits of `n`.
fn low_u64(n: u128) -> (r: u64)
    ensures
        r == n % 0x1_0000_0000_0000_0000,
{
    (n % 0x1_0000_0000_0000_0000u128) as u64
}

/// Nanoseconds since the Unix epoch by the wall clock, truncated to 64
/// bits; 0 when the clock reads before the epoch.
pub(crate) fn unix_time_ns() -> (ns: u64) {
    match since_unix_epoch(system_now()) {
        Some(d) => low_u64(duration_nanos(&d)),
        None => 0,
    }
}

/// Milliseconds since the Unix epoch, from one clock reading.
pub fn unix_time_ms() -> (ms: u64) {
    unix_time_ns() / 1_000_000
}

/// Whole milliseconds of the monotonic clock since `origin`, truncated to
/// 64 bits.
pub(crate) fn monotonic_ms_since(origin: &std::time::Instant) -> (ms: u64) {
    low_u64(duration_millis(&elapsed_since(origin)))
}

} // verus!
