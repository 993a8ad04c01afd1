//! Scheduling requests and the pending events made from them.
//!
//! The completion signal is that of the `pulse` crate: a `Signal` for the
//! caller to wait on and the `Pulse` that fires it. Both are carried through
//! unread; what is declared of the crate here is believed, not proved.

use pulse::Pulse;
use pulse::Signal;
use vstd::prelude::*;

verus! {

/// The sending side of a one-shot completion signal of the `pulse` crate.
/// Opaque to the verifier.
#[verifier::external_type_specification]
#[verifier::external_body]
pub struct ExPulse(pulse::Pulse);

/// The receiving side of a one-shot completion signal of the `pulse` crate: the
/// handle a caller waits on. Opaque to the verifier.
#[verifier::external_type_specification]
#[verifier::external_body]
pub struct ExSignal(pulse::Signal);

/// `Signal::new` of the `pulse` crate makes a fresh pending `Signal` and the
/// `Pulse` that is paired with it. Nothing is claimed of the pair.
pub assume_specification[ pulse::Signal::new ]() -> (pair: (Signal, Pulse));

/// `Pulse::pulse` of the `pulse` crate consumes the sender, marks its signal as
/// pulsed and wakes what waits on it, whether or not the receiver still
/// exists. It returns nothing, and nothing is claimed of its effect. Waking
/// runs what the holder of the receiver has attached to it: a callback that
/// panics there panics here.
pub assume_specification[ pulse::Pulse::pulse ](sink: Pulse);

/// A request to be notified once, `duration` milliseconds after the worker
/// accepts it.
pub struct SchedulingRequest {
    pub duration: u32,
    pub completion_sink: Pulse,
}

/// A pending timer: the sink to pulse and the deadline, in milliseconds on the
/// worker's clock, at or after which it is due.
pub struct ScheduledEvent {
    pub when: i128,
    pub completion_sink: Pulse,
}

/// The event that a request becomes when it is accepted at `now`: its deadline
/// lies the requested delay after `now`, and it carries the request's sink.
pub open spec fn event_for(request: SchedulingRequest, now: i64) -> ScheduledEvent {
    ScheduledEvent {
        when: (now + request.duration) as i128,
        completion_sink: request.completion_sink,
    }
}

impl SchedulingRequest {
    /// Makes a fresh completion pair and the request that carries its sender.
    /// The receiver is the handle for the caller to wait on.
    pub fn new(duration_ms: u32) -> (r: (Signal, SchedulingRequest))
        ensures
            r.1.duration == duration_ms,
    {
        let (handle, sink) = Signal::new();
        (handle, SchedulingRequest { duration: duration_ms, completion_sink: sink })
    }

    /// Turns the request into the event that is due `duration` milliseconds
    /// after `now`.
    pub fn into_event(self, now: i64) -> (e: ScheduledEvent)
        ensures
            e == event_for(self, now),
            e.when == now + self.duration,
    {
        ScheduledEvent { when: now as i128 + self.duration as i128, completion_sink: self.completion_sink }
    }
}

impl ScheduledEvent {
    /// The deadline has been reached at `now`.
    pub open spec fn due(self, now: i64) -> bool {
        self.when <= now
    }

    /// Whether the deadline has been reached at `now`.
    pub fn is_due(&self, now: i64) -> (b: bool)
        ensures
            b == self.due(now),
    {
        self.when <= now as i128
    }

    /// Pulses the completion sink, which consumes the event: it can fire once.
    pub fn fire(self) {
        self.completion_sink.pulse();
    }
}

} // verus!
