//! Lengths of time, and the clock they are read from.

use std::time::{Duration, Instant};
use vstd::prelude::*;

verus! {

/// How many nanoseconds a length of time has: what `Duration::as_nanos` returns.
pub uninterp spec fn nanos_of(d: Duration) -> u128;

/// `Duration::as_nanos`: the number of nanoseconds.
pub assume_specification[ Duration::as_nanos ](d: &Duration) -> (n: u128)
    ensures
        n == nanos_of(*d),
;

/// `Duration::as_micros`: the number of whole microseconds.
pub assume_specification[ Duration::as_micros ](d: &Duration) -> (n: u128)
    ensures
        n == nanos_of(*d) / 1_000,
;

/// `Duration::from_secs`: a length of `secs` seconds.
pub assume_specification[ Duration::from_secs ](secs: u64) -> (d: Duration)
    ensures
        nanos_of(d) == secs * 1_000_000_000,
;

/// `std::time::Instant`, a reading of the monotonic clock.
#[verifier::external_type_specification]
#[verifier::external_body]
pub struct ExInstant(Instant);

/// `Instant::now`: nothing is known of the reading.
pub assume_specification[ Instant::now ]() -> Instant
;

/// `Instant::elapsed`: nothing is known of the time that passed.
pub assume_specification[ Instant::elapsed ](start: &Instant) -> Duration
;

} // verus!
