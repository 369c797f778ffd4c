//! Measuring how long a step takes.
use vstd::prelude::*;
use std::time::{Duration, Instant};

verus! {

#[verifier::external_type_specification]
#[verifier::external_body]
pub struct ExInstant(Instant);

/// `Instant::now`: the current time; nothing is known of it.
#[verifier::external_body]
pub fn now() -> Instant {
    Instant::now()
}

/// `Instant::elapsed`: the time since `start`; nothing is known of it.
#[verifier::external_body]
pub fn elapsed(start: &Instant) -> Duration {
    start.elapsed()
}

/// `Duration::ZERO`, the empty span of time.
#[verifier::external_body]
pub fn zero_duration() -> Duration {
    Duration::ZERO
}

} // verus!
