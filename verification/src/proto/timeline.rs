//! The timeline model. The guest owns one monotonic clock per case; every
//! artifact stamps `timeline_ns` = nanoseconds since the case's `t0`. The
//! host never reinterprets it; its only clock-ish field is the
//! presentation-only `TimelineOffsetNs`.

use vstd::prelude::*;

verus! {

/// A point on the guest-local case timeline, in nanoseconds since `t0`.
pub type TimelineNs = i64;

/// `std::time::Instant`, a reading of the monotonic clock; opaque here.
#[verifier::external_type_specification]
#[verifier::external_body]
pub struct ExInstant(std::time::Instant);

/// `std::time::Instant::now`: the current reading of the monotonic clock.
/// Nothing is claimed of the value, which depends on the clock.
#[verifier::external_body]
fn instant_now() -> std::time::Instant {
    std::time::Instant::now()
}

/// `std::time::Instant::elapsed`: the time passed since `t`. Nothing is
/// claimed of the value, which depends on the clock.
#[verifier::external_body]
fn instant_elapsed(t: &std::time::Instant) -> std::time::Duration {
    t.elapsed()
}

/// `std::time::Duration::as_nanos`: the duration in whole nanoseconds. The
/// value depends on the duration, which is opaque here, so nothing is
/// claimed of it.
#[verifier::external_body]
fn duration_as_nanos(d: &std::time::Duration) -> u128 {
    d.as_nanos()
}

/// `Clone::clone` for `std::time::Instant`, a `Copy` type: the clone is
/// the same clock reading.
pub assume_specification[ <std::time::Instant as Clone>::clone ](i: &std::time::Instant) -> (r:
    std::time::Instant)
    ensures
        r == *i,
;

/// The guest-local case timeline handle, started at case start.
#[derive(Debug, Clone)]
pub struct Timeline {
    t0: std::time::Instant,
}

impl Timeline {
    /// Start a new case timeline; `now()` right after returns about 0.
    pub fn start() -> Timeline {
        Timeline { t0: instant_now() }
    }

    /// Current `timeline_ns`: the nanoseconds elapsed since `t0`, truncated
    /// to 64 signed bits. The reading depends on the clock.
    pub fn now(&self) -> TimelineNs {
        let d = instant_elapsed(&self.t0);
        let n = duration_as_nanos(&d);
        n as i64
    }
}

/// Presentation-only offset used by the host to stitch several cases of an
/// OS-migrated job into one report timeline; 0 for a normal case.
#[derive(Debug, Clone, Copy, Default, PartialEq, Eq, Structural)]
pub struct TimelineOffsetNs(pub i64);

} // verus!
