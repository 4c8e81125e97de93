//! The time-source capability: a query for elapsed time, and an
//! implementation backed by the operating system.

use vstd::prelude::*;

verus! {

/// Something which records elapsed real time, in nanoseconds, measured from
/// a clock-specific reference point (for example device start-up).
///
/// Readings are expected to be monotonically non-decreasing; a driver that
/// is polled with a clock running backwards simply sees no step fall due.
/// The same clock should be used for every poll of one driver.
pub trait SystemClock {
    /// Nanoseconds elapsed since the clock's reference point.
    fn elapsed(&self) -> u64;
}

impl<C: SystemClock> SystemClock for &C {
    fn elapsed(&self) -> u64 {
        (*self).elapsed()
    }
}

#[verifier::external_type_specification]
#[verifier::external_body]
pub struct ExInstant(std::time::Instant);

/// A monotonically non-decreasing clock backed by the operating system,
/// counting from the moment it was created.
#[derive(Debug)]
pub struct OperatingSystemClock {
    created_at: std::time::Instant,
}

/// Relies on std::time::Instant::now for the current instant.
#[verifier::external_body]
fn instant_now() -> std::time::Instant {
    std::time::Instant::now()
}

/// Relies on std::time::Instant::elapsed for the time passed since the
/// instant was taken.
#[verifier::external_body]
fn instant_elapsed(instant: &std::time::Instant) -> core::time::Duration {
    instant.elapsed()
}

/// Relies on core::time::Duration::as_nanos for the duration expressed as
/// whole nanoseconds.
#[verifier::external_body]
fn duration_as_nanos(duration: &core::time::Duration) -> u128 {
    duration.as_nanos()
}

impl OperatingSystemClock {
    /// A clock whose reference point is the moment of this call.
    pub fn new() -> OperatingSystemClock {
        OperatingSystemClock { created_at: instant_now() }
    }
}

impl SystemClock for OperatingSystemClock {
    fn elapsed(&self) -> u64 {
        let duration: core::time::Duration = instant_elapsed(&self.created_at);
        let nanos: u128 = duration_as_nanos(&duration);
        if nanos > u64::MAX as u128 {
            u64::MAX
        } else {
            nanos as u64
        }
    }
}

impl Default for OperatingSystemClock {
    fn default() -> OperatingSystemClock {
        OperatingSystemClock::new()
    }
}

} // verus!
