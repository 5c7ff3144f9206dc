use vstd::prelude::*;

verus! {

/// The monotonic clock's instants.
#[verifier::external_type_specification]
#[verifier::external_body]
pub struct ExInstant(std::time::Instant);

/// Reads the monotonic clock through `std::time::Instant::now`. Nothing is
/// stated of the instant: it depends on when the call is made.
#[verifier::external_body]
pub(crate) fn instant_now() -> std::time::Instant {
    std::time::Instant::now()
}

/// The time elapsed since `origin`, through `std::time::Instant::elapsed`.
/// Nothing is stated of the duration: it depends on when the call is made.
#[verifier::external_body]
fn elapsed_since(origin: &std::time::Instant) -> std::time::Duration {
    origin.elapsed()
}

/// The whole nanoseconds of `duration`, through `Duration::as_nanos`,
/// truncated to 64 bits (which takes over 584 years to matter). Nothing is
/// stated of the value: `Duration` has no specification here.
#[verifier::external_body]
fn whole_nanos(duration: &std::time::Duration) -> u64 {
    duration.as_nanos() as u64
}

/// Nanoseconds elapsed since `origin` on the monotonic clock.
pub(crate) fn nanos_since(origin: &std::time::Instant) -> u64 {
    let elapsed = elapsed_since(origin);
    whole_nanos(&elapsed)
}

} // verus!
