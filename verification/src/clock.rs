//! Time, as far as the classifier needs it.

use std::time::{Duration, Instant};

use vstd::prelude::*;

verus! {

/// `std::time::Instant`: a reading of the monotonic clock. Nothing is known of
/// what is inside.
#[verifier::external_type_specification]
#[verifier::external_body]
pub struct ExInstant(Instant);

/// The length of a span of time in nanoseconds, as `Duration::as_nanos` gives it.
pub uninterp spec fn duration_nanos(d: Duration) -> u128;

/// `Instant::now` reads the clock. Nothing is claimed of the reading.
pub assume_specification[ Instant::now ]() -> Instant
;

/// `Instant::elapsed` gives the time from an earlier reading to now. It depends on
/// the clock, so nothing is claimed of its length.
pub assume_specification[ Instant::elapsed ](earlier: &Instant) -> Duration
;

/// `Duration::as_nanos` gives the length of a span of time in nanoseconds.
pub assume_specification[ Duration::as_nanos ](d: &Duration) -> (n: u128)
    ensures
        n == duration_nanos(*d),
;

/// `Duration::from_millis` makes a span of that many milliseconds.
pub assume_specification[ Duration::from_millis ](ms: u64) -> (d: Duration)
    ensures
        duration_nanos(d) == ms * 1_000_000,
;

} // verus!
