//! Access to the monotonic clock and to lengths of time. What the clock reads
//! is outside the proofs: the functions that read it promise nothing about the
//! values they return; lengths of time are stated in nanoseconds.

use std::time::{Duration, Instant};
use vstd::prelude::*;

verus! {

/// `std::time::Instant`, carried through the library as an opaque value.
#[verifier::external_type_specification]
#[verifier::external_body]
pub struct ExInstant(Instant);

/// Reads the monotonic clock (`Instant::now`). Nothing is stated of the value.
#[verifier::external_body]
pub(crate) fn instant_now() -> Instant {
    Instant::now()
}

/// Time elapsed since `start` (`Instant::elapsed`). Nothing is stated of the value.
#[verifier::external_body]
pub(crate) fn instant_elapsed(start: &Instant) -> Duration {
    start.elapsed()
}

/// Nanoseconds from `earlier` to `later`, zero when `later` is the earlier of
/// the two (`Instant::saturating_duration_since`, then `Duration::as_nanos`).
/// Nothing is stated of the value: it depends on what the clock read.
#[verifier::external_body]
pub(crate) fn nanos_since(later: &Instant, earlier: &Instant) -> u128 {
    later.saturating_duration_since(*earlier).as_nanos()
}

/// The length of a duration in whole nanoseconds (`Duration::as_nanos`).
pub uninterp spec fn duration_nanos(d: Duration) -> nat;

/// The length of `d` in whole nanoseconds (`Duration::as_nanos`).
#[verifier::external_body]
pub(crate) fn duration_as_nanos(d: &Duration) -> (n: u128)
    ensures
        n == duration_nanos(*d),
{
    d.as_nanos()
}

/// A duration of `ms` milliseconds (`Duration::from_millis`): its length in
/// nanoseconds is `ms` times a million.
#[verifier::external_body]
pub(crate) fn duration_from_millis(ms: u64) -> (d: Duration)
    ensures
        duration_nanos(d) == ms * 1_000_000,
{
    Duration::from_millis(ms)
}

} // verus!

verus! {

/// Sub-second nanoseconds of the wall clock (`SystemTime::now`), used as a
/// cheap source of variety. Nothing is stated of the value.
#[verifier::external_body]
pub(crate) fn clock_entropy() -> u32 {
    std::time::SystemTime::now().duration_since(std::time::UNIX_EPOCH).map(|d| d.subsec_nanos()).unwrap_or(0)
}

} // verus!
