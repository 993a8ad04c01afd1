//! The monotonic time source of the scheduler.
//!
//! The worker reckons in whole milliseconds on a clock of its own, which counts
//! from the moment the worker was made. The readings come from the steady clock
//! of the `time` crate; what is declared of that crate here is believed, not
//! proved, and claims nothing of any reading.

use time::Duration;
use time::SteadyTime;
use vstd::prelude::*;

verus! {

/// A moment on the steady clock of the `time` crate. Opaque to the verifier.
#[verifier::external_type_specification]
#[verifier::external_body]
pub struct ExSteadyTime(time::SteadyTime);

/// A signed span of time of the `time` crate. Opaque to the verifier.
#[verifier::external_type_specification]
#[verifier::external_body]
pub struct ExDuration(time::Duration);

/// `SteadyTime::now` of the `time` crate reads the system's steady clock. It
/// takes nothing, and nothing is claimed of the moment it returns. Should the
/// system refuse to read its steady clock, the call stops the program.
pub assume_specification[ time::SteadyTime::now ]() -> (t: SteadyTime);

/// `Duration::num_milliseconds` of the `time` crate gives the whole
/// milliseconds of a span, rounded towards zero. Nothing is claimed of the
/// number.
pub assume_specification[ time::Duration::num_milliseconds ](d: &Duration) -> (ms: i64);

/// Subtraction of one `SteadyTime` from another (`Sub::sub` of the `time`
/// crate): the span from `earlier` to `later`. Nothing is claimed of the span.
/// The subtraction stops the program where the two moments lie further apart
/// than a `Duration` can hold, some hundred million years; the one caller
/// passes two readings of the running system's clock.
#[verifier::external_body]
fn span_between(later: SteadyTime, earlier: SteadyTime) -> (d: Duration) {
    later - earlier
}

/// A clock that counts whole milliseconds from the moment it was started.
pub struct Clock {
    origin: SteadyTime,
}

impl Clock {
    /// Starts a clock at the current moment. Which moment that is depends on
    /// when the call is made, so nothing is stated of the clock it returns.
    pub fn start() -> (c: Clock) {
        Clock { origin: SteadyTime::now() }
    }

    /// Whole milliseconds elapsed since the clock was started. The reading
    /// depends on the moment of the call, so nothing is stated of it.
    pub fn now_ms(&self) -> (ms: i64) {
        let t = SteadyTime::now();
        let d = span_between(t, self.origin);
        d.num_milliseconds()
    }
}

} // verus!
