//! Readings of the monotonic clock, taken on trust: the values depend on the
//! machine's clock, so nothing is promised of them. All timing decisions are
//! made in verified code over the plain nanosecond values these return.

use std::time::Instant;
use vstd::prelude::*;

verus! {

/// Declares `std::time::Instant` as an opaque marker of a point in time.
#[verifier::external_type_specification]
#[verifier::external_body]
pub struct ExInstant(Instant);

/// Relies on `std::time::Instant`'s derived `Clone`, which copies the value.
pub assume_specification[ <Instant as Clone>::clone ](v: &Instant) -> (r: Instant)
    ensures
        r == *v,
;

/// Relies on `std::time::Instant::now`: an opaque reading of the monotonic
/// clock. Nothing is promised of the value.
#[verifier::external_body]
pub(crate) fn instant_now() -> Instant {
    Instant::now()
}

/// Relies on `std::time::Instant::elapsed`: the nanoseconds that have passed
/// since `since`, saturating at `u64::MAX`. Nothing is promised of the value:
/// it depends on the clock.
#[verifier::external_body]
pub(crate) fn elapsed_nanos(since: &Instant) -> u64 {
    u64::try_from(since.elapsed().as_nanos()).unwrap_or(u64::MAX)
}

} // verus!
