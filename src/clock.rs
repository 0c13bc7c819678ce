//! The monotonic clock that edits are timed by.

use std::time::{Duration, Instant};
use vstd::prelude::*;

verus! {

#[verifier::external_type_specification]
#[verifier::external_body]
pub struct ExInstant(Instant);

/// Relies on `Instant::now`: a reading of the monotonic clock. Nothing is
/// known of its value.
pub assume_specification[ Instant::now ]() -> Instant;

/// Relies on `Instant::elapsed`: the time since the reading, which std
/// saturates at zero instead of panicking. Nothing is known of its value.
pub assume_specification[ Instant::elapsed ](i: &Instant) -> Duration;

/// Relies on `Duration::as_millis`: the whole milliseconds of a duration.
/// Nothing is known of its value here.
pub assume_specification[ Duration::as_millis ](d: &Duration) -> u128;

/// The whole milliseconds since `origin`, capped at `u64::MAX`.
pub(crate) fn millis_since(origin: &Instant) -> u64 {
    let ms = origin.elapsed().as_millis();
    if ms > u64::MAX as u128 {
        u64::MAX
    } else {
        ms as u64
    }
}

} // verus!
