//! Readings of the monotonic clock, through `std::time`.

use std::time::{Duration, Instant};
use vstd::prelude::*;

verus! {

/// `std::time::Instant`, carried through the library as an opaque value.
#[verifier::external_type_specification]
#[verifier::external_body]
pub struct ExInstant(Instant);

/// Calls `Instant::now`. The reading depends on the clock: nothing is promised of it.
#[verifier::external_body]
pub fn clock_now() -> Instant {
    Instant::now()
}

/// Calls `Sub::sub` on two instants: the time from `earlier` to `later`. Since
/// Rust 1.60 std saturates this to zero when `earlier` is the later one, so the
/// call does not panic. Nothing is stated of the duration: both readings are opaque.
#[verifier::external_body]
pub fn time_between(later: Instant, earlier: Instant) -> Duration {
    later - earlier
}

/// Calls `Duration::as_nanos`. The duration is opaque here, so nothing is stated of the result.
#[verifier::external_body]
pub fn whole_nanos(d: &Duration) -> u128 {
    d.as_nanos()
}

} // verus!
