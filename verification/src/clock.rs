//! The monotonic clock by which the controller tells which players are
//! still there.
use vstd::prelude::*;

verus! {

/// `std::time::Instant`, a point on the monotonic clock. Nothing of what a
/// value holds is visible to the proofs.
#[verifier::external_type_specification]
#[verifier::external_body]
pub struct ExInstant(std::time::Instant);

/// `std::time::Instant::now` reads the clock. Nothing is claimed of the
/// instant it returns.
pub assume_specification[ std::time::Instant::now ]() -> (instant: std::time::Instant);

/// `std::time::Instant::elapsed` gives the time since the instant was taken.
/// Nothing is claimed of the duration it returns.
pub assume_specification[ std::time::Instant::elapsed ](
    instant: &std::time::Instant,
) -> (passed: std::time::Duration);

/// `std::time::Duration::as_millis` gives a duration in whole milliseconds.
/// Nothing is claimed of the number it returns.
pub assume_specification[ std::time::Duration::as_millis ](
    duration: &std::time::Duration,
) -> (millis: u128);

/// A clock that counts milliseconds from the moment it was started.
#[derive(Debug)]
pub struct Clock {
    origin: std::time::Instant,
}

impl Clock {
    /// Starts a clock.
    pub fn start() -> Clock {
        Clock { origin: std::time::Instant::now() }
    }

    /// Milliseconds since the clock was started, held at `u64::MAX` once it
    /// has run that long.
    pub fn now_millis(&self) -> u64 {
        held_millis(self.origin.elapsed().as_millis())
    }
}

/// A count of milliseconds as the clock gives it out: the count itself, or
/// `u64::MAX` where the count is larger than that.
pub open spec fn held(millis: u128) -> u64 {
    if millis > u64::MAX {
        u64::MAX
    } else {
        millis as u64
    }
}

/// Holds a count of milliseconds at `u64::MAX`.
pub fn held_millis(millis: u128) -> (now: u64)
    ensures
        now == held(millis),
{
    if millis > 0xffff_ffff_ffff_ffffu128 {
        0xffff_ffff_ffff_ffffu64
    } else {
        millis as u64
    }
}

} // verus!
