//! Reading the clock and converting durations. The clock's readings depend on
//! when the calls run, so nothing is claimed of them; the conversions between
//! a `Duration` and its count of nanoseconds are stated through a name for
//! that count.

use std::time::{Duration, Instant};
use vstd::prelude::*;

verus! {

#[verifier::external_type_specification]
#[verifier::external_body]
pub struct ExInstant(Instant);

/// The total number of nanoseconds in a duration, as `Duration::as_nanos`
/// returns it.
pub uninterp spec fn duration_total_nanos(d: Duration) -> u128;

/// Calls `Duration::as_nanos`: the result is the duration's total number of
/// nanoseconds, which the contract names and does not further state.
#[verifier::external_body]
pub fn duration_as_nanos(d: &Duration) -> (r: u128)
    ensures
        r == duration_total_nanos(*d),
{
    d.as_nanos()
}

/// Calls `Duration::from_nanos`: its documentation says the duration is the
/// given number of nanoseconds, so its total count of nanoseconds is `nanos`.
#[verifier::external_body]
pub fn duration_from_nanos(nanos: u64) -> (d: Duration)
    ensures
        duration_total_nanos(d) == nanos as u128,
{
    Duration::from_nanos(nanos)
}

/// Calls `Instant::now`. Nothing is claimed of the reading.
#[verifier::external_body]
pub fn clock_now() -> Instant {
    Instant::now()
}

/// Calls `Instant::elapsed`: the time since `start`. Nothing is claimed of the
/// reading.
#[verifier::external_body]
pub fn clock_elapsed(start: &Instant) -> Duration {
    start.elapsed()
}

} // verus!
