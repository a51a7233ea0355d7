use vstd::prelude::*;

use std::time::Duration;
use std::time::Instant;

verus! {

// `std::time::Duration` is already known to the verifier; `Instant` is not,
// so it is declared here as an opaque type. Readings of the clock are
// inherently nondeterministic, so none of the functions below promises
// anything about its result: the driver's contracts hold whatever the clock
// says.
#[verifier::external_type_specification]
#[verifier::external_body]
pub struct ExInstant(Instant);

/// Relies on `std::time::Instant::now`: a reading of the monotonic clock.
#[verifier::external_body]
pub(crate) fn clock_now() -> Instant {
    Instant::now()
}

/// Relies on `std::time::Instant::elapsed`: the time that the monotonic
/// clock has advanced since `start`, unaffected by wall-clock adjustments.
#[verifier::external_body]
pub(crate) fn elapsed_since(start: &Instant) -> Duration {
    start.elapsed()
}

/// Relies on `Ord` for `std::time::Duration`: whether `spent` has reached
/// `budget`.
#[verifier::external_body]
pub(crate) fn duration_reached(spent: &Duration, budget: &Duration) -> bool {
    *spent >= *budget
}

} // verus!
