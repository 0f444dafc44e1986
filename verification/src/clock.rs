//! The clocks, the one source of time for the library: the wall clock and
//! the monotonic clock.
use vstd::prelude::*;

verus! {

#[verifier::external_type_specification]
#[verifier::external_body]
pub struct ExSystemTime(std::time::SystemTime);

/// A reading of the wall clock, `SystemTime::now`; nothing is stated of it,
/// as it depends on the machine's clock.
#[verifier::external_body]
fn wall_now() -> std::time::SystemTime {
    std::time::SystemTime::now()
}

/// How long after the Unix epoch `t` is, `SystemTime::duration_since`; none
/// when `t` is before it. Nothing is stated of the value.
#[verifier::external_body]
fn since_epoch(t: &std::time::SystemTime) -> Option<std::time::Duration> {
    t.duration_since(std::time::UNIX_EPOCH).ok()
}

/// The whole nanoseconds of `d`, `Duration::as_nanos`. Nothing is stated of
/// the value, as a duration's contents are not modelled.
#[verifier::external_body]
fn duration_nanos(d: &std::time::Duration) -> u128 {
    d.as_nanos()
}

/// Nanoseconds since the Unix epoch, or 0 if the system clock is before it;
/// nothing is stated of the value, which depends on the machine's clock.
pub(crate) fn unix_nanos() -> u128 {
    match since_epoch(&wall_now()) {
        Some(d) => duration_nanos(&d),
        None => 0,
    }
}

/// Whole units of `per` nanoseconds in `nanos`, saturated to `u64`.
pub open spec fn whole_units(nanos: u128, per: u128) -> u64 {
    if nanos / per > u64::MAX as u128 { u64::MAX } else { (nanos / per) as u64 }
}

/// Whole units of `per` nanoseconds in `nanos`, saturated to `u64`.
pub fn to_whole_units(nanos: u128, per: u128) -> (r: u64)
    requires
        per > 0,
    ensures
        r == whole_units(nanos, per),
{
    let s = nanos / per;
    if s > u64::MAX as u128 { u64::MAX } else { s as u64 }
}

/// Whole seconds since the Unix epoch; nothing is stated of the value,
/// which depends on the machine's clock.
pub fn unix_secs() -> (r: u64) {
    to_whole_units(unix_nanos(), 1_000_000_000)
}

#[verifier::external_type_specification]
#[verifier::external_body]
pub struct ExInstant(std::time::Instant);

/// A reading of the monotonic clock, `Instant::now`; nothing is stated of
/// it, as it depends on the machine.
#[verifier::external_body]
pub(crate) fn monotonic_now() -> std::time::Instant {
    std::time::Instant::now()
}

/// How long the monotonic clock has advanced since `start`,
/// `Instant::elapsed`; nothing is stated of it, as it depends on when it is
/// read.
#[verifier::external_body]
fn elapsed_since(start: &std::time::Instant) -> std::time::Duration {
    start.elapsed()
}

/// Nanoseconds the monotonic clock has advanced since `start`, saturated to
/// `u64`; nothing is stated of the value.
pub fn monotonic_nanos_since(start: &std::time::Instant) -> (r: u64) {
    to_whole_units(duration_nanos(&elapsed_since(start)), 1)
}

}
