//! Time as whole nanoseconds since a starting point.
use vstd::prelude::*;

verus! {

/// A point in time of the monotonic clock.
#[verifier::external_type_specification]
#[verifier::external_body]
pub struct ExInstant(std::time::Instant);

/// The nanoseconds of one second.
pub const SECOND: u128 = 1_000_000_000;

/// The nanoseconds of the longest `Duration` of std: `u64::MAX` seconds and one nanosecond less
/// than another.
pub const MAX_DURATION: u128 = 18_446_744_073_709_551_615_999_999_999;

/// `Instant::now` of std: the current point in time.
#[verifier::external_body]
pub(crate) fn clock_start() -> (r: std::time::Instant) {
    std::time::Instant::now()
}

/// `Instant::elapsed` of std, in nanoseconds. Nothing but its range is known of it.
#[verifier::external_body]
pub(crate) fn nanos_since(start: &std::time::Instant) -> (r: u128)
    ensures
        r <= MAX_DURATION,
{
    start.elapsed().as_nanos()
}

} // verus!
