//! The monotonic clock of the scheduler and the recovery timer, and the
//! random source of the scheduler.
use vstd::prelude::*;

verus! {

/// `SystemTime::now()` since the Unix epoch, in nanoseconds (0 before the
/// epoch). Nothing is stated of the value: it is the time.
#[verifier::external_body]
pub(crate) fn system_time_nanos() -> u128 {
    std::time::SystemTime::now()
        .duration_since(std::time::UNIX_EPOCH)
        .unwrap_or_default()
        .as_nanos()
}

/// The type of a point on the monotonic clock.
#[verifier::external_type_specification]
#[verifier::external_body]
pub struct ExInstant(std::time::Instant);

/// `Instant::now()`. Nothing is stated of the value: it is the time.
#[verifier::external_body]
fn instant_now() -> std::time::Instant {
    std::time::Instant::now()
}

/// `Instant::elapsed` in whole milliseconds (`Duration::as_millis`).
/// Nothing is stated of the value: it is the time.
#[verifier::external_body]
fn elapsed_millis(start: &std::time::Instant) -> u128 {
    start.elapsed().as_millis()
}

/// A monotonic clock: milliseconds since it was made. Setting the wall
/// clock does not move it.
pub struct MonoClock {
    start: std::time::Instant,
}

impl MonoClock {
    /// A clock that starts now.
    pub fn new() -> Self {
        MonoClock { start: instant_now() }
    }

    /// Milliseconds since the clock was made (capped to `u64`).
    pub fn now_ms(&self) -> u64 {
        let ms = elapsed_millis(&self.start);
        if ms > u64::MAX as u128 {
            u64::MAX
        } else {
            ms as u64
        }
    }
}

/// The generator step applied to a seed: multiply and add, both wrapping.
pub open spec fn mix_seed(seed: u64) -> u64 {
    (((seed as int * 6364136223846793005) % 0x1_0000_0000_0000_0000 + 1442695040888963407)
        % 0x1_0000_0000_0000_0000) as u64
}

/// A pseudo-random number mixed from a seed.
pub fn mix(seed: u64) -> (r: u64)
    ensures
        r == mix_seed(seed),
{
    seed.wrapping_mul(6364136223846793005).wrapping_add(1442695040888963407)
}

/// A pseudo-random number seeded from the current time in nanoseconds.
pub fn random_u64() -> (r: u64)
    ensures
        exists|seed: u64| r == mix_seed(seed),
{
    let nanos = system_time_nanos();
    let seed: u64 = (nanos % 0x1_0000_0000_0000_0000) as u64;
    mix(seed)
}

} // verus!
