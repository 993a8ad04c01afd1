//! The scheduling worker: it accepts requests, fires the events that are due
//! and says how long to rest before the next check.

use crate::clock::Clock;
use crate::event::event_for;
use crate::event::ScheduledEvent;
use crate::event::SchedulingRequest;
use crate::heap::is_earliest;
use crate::heap::EventHeap;
use crate::model::after_pass;
use crate::model::due_events;
use crate::model::lemma_due_is_pending;
use crate::model::lemma_earliest_is_due;
use crate::model::lemma_next_deadline;
use crate::model::lemma_nothing_due;
use crate::model::lemma_remaining_not_due;
use crate::model::lemma_remove_due;
use crate::model::lemma_scheduled_none;
use crate::model::lemma_scheduled_push;
use crate::model::lemma_split_by_deadline;
use crate::model::remaining;
use crate::model::scheduled;
use crate::model::some_due;
use crate::model::wait_interval;
use crate::model::EARLY_WAKE_MS;
use crate::model::IDLE_WAIT_MS;
use crate::model::MAX_WAIT_MS;
use crate::model::MIN_WAIT_MS;
use vstd::multiset::Multiset;
use vstd::prelude::*;

verus! {

/// The worker's state: its clock and the events that wait for their deadline.
pub struct ScheduleWorker {
    clock: Clock,
    schedule: EventHeap,
}

impl ScheduleWorker {
    /// The pending events, without order.
    pub closed spec fn pending(&self) -> Multiset<ScheduledEvent> {
        self.schedule@
    }

    /// A worker with nothing pending, whose clock starts now.
    pub fn new() -> (w: ScheduleWorker)
        ensures
            w.pending() == Multiset::<ScheduledEvent>::empty(),
    {
        ScheduleWorker { clock: Clock::start(), schedule: EventHeap::new() }
    }

    /// The moment that the worker's clock shows, in milliseconds since the
    /// worker was made. The reading depends on the moment of the call, so
    /// nothing is stated of it: `run_once`, which takes it, says what holds
    /// whatever it is, and `run_once_at` says what a pass does at each moment.
    pub fn now_ms(&self) -> (now: i64) {
        self.clock.now_ms()
    }

    /// Number of pending events.
    pub fn pending_count(&self) -> (n: usize)
        ensures
            n == self.pending().len(),
    {
        self.schedule.len()
    }

    /// Accepts every request of the batch at `now`: each becomes one pending
    /// event, due its own delay after `now`.
    pub fn drain_request_queue(&mut self, requests: Vec<SchedulingRequest>, now: i64)
        ensures
            final(self).pending() == old(self).pending().add(scheduled(requests@, now)),
    {
        let ghost batch = requests@;
        proof {
            broadcast use vstd::multiset::group_multiset_axioms;

            lemma_scheduled_none(now);
            assert(batch.take(0) =~= Seq::<SchedulingRequest>::empty());
            assert(self.pending() =~= self.pending().add(Multiset::<ScheduledEvent>::empty()));
        }
        for request in it: requests.into_iter()
            invariant
                it.seq() == batch,
                self.pending() == old(self).pending().add(scheduled(batch.take(it.index()), now)),
        {
            proof {
                broadcast use vstd::multiset::group_multiset_axioms;

                let done = batch.take(it.index());
                assert(batch.take(it.index() + 1) =~= done.push(request));
                lemma_scheduled_push(done, request, now);
                assert(old(self).pending().add(scheduled(done, now)).insert(event_for(request, now))
                    =~= old(self).pending().add(scheduled(done, now).insert(event_for(request, now))));
            }
            self.schedule.push(request.into_event(now));
        }
        proof {
            assert(batch.take(batch.len() as int) =~= batch);
        }
    }

    /// Whether an earliest pending event has reached its deadline at `now`, which
    /// is to say whether any pending event has.
    pub fn has_event_now(&self, now: i64) -> (b: bool)
        ensures
            b == some_due(self.pending(), now),
    {
        match self.schedule.peek() {
            Some(event) => event.is_due(now),
            None => {
                proof {
                    vstd::multiset::lemma_multiset_empty_len(self.pending());
                }
                false
            },
        }
    }

    /// Takes an earliest pending event off the schedule and pulses its sink.
    /// Does nothing when nothing is pending.
    pub fn fire_event(&mut self)
        ensures
            old(self).pending().len() == 0 ==> final(self).pending() == old(self).pending(),
            old(self).pending().len() > 0 ==> exists|e: ScheduledEvent|
                #[trigger] is_earliest(old(self).pending(), e) && final(self).pending() == old(
                    self,
                ).pending().remove(e),
    {
        if let Some(event) = self.schedule.pop() {
            event.fire();
        }
    }

    /// Fires every pending event that has reached its deadline at `now`, an
    /// earliest one first, and returns how many were fired. What stays pending
    /// is exactly what is not yet due.
    pub fn fire_due_events(&mut self, now: i64) -> (fired: usize)
        ensures
            final(self).pending() == remaining(old(self).pending(), now),
            fired == due_events(old(self).pending(), now).len(),
            fired + final(self).pending().len() == old(self).pending().len(),
    {
        let mut fired: usize = 0;
        proof {
            self.schedule.lemma_len_fits();
        }
        while self.has_event_now(now)
            invariant
                remaining(self.pending(), now) == remaining(old(self).pending(), now),
                fired + self.pending().len() == old(self).pending().len(),
                old(self).pending().len() <= usize::MAX,
            decreases self.pending().len(),
        {
            let ghost before = self.pending();
            self.fire_event();
            proof {
                lemma_due_is_pending(before, now);
                let e = choose|e: ScheduledEvent|
                    #[trigger] is_earliest(before, e) && self.pending() == before.remove(e);
                lemma_earliest_is_due(before, e, now);
                lemma_remove_due(before, e, now);
            }
            fired = fired + 1;
        }
        proof {
            lemma_nothing_due(self.pending(), now);
            lemma_split_by_deadline(old(self).pending(), now);
        }
        fired
    }

    /// How many milliseconds to rest at `now` before looking again.
    pub fn ms_until_next_event(&self, now: i64) -> (wait: u32)
        ensures
            wait == wait_interval(self.pending(), now),
            self.pending().len() > 0 ==> MIN_WAIT_MS <= wait <= MAX_WAIT_MS,
    {
        match self.schedule.peek() {
            Some(event) => {
                proof {
                    lemma_next_deadline(self.pending(), *event);
                }
                let wake: i128 = now as i128 + EARLY_WAKE_MS as i128;
                if event.when <= wake + MIN_WAIT_MS as i128 {
                    MIN_WAIT_MS
                } else if event.when >= wake + MAX_WAIT_MS as i128 {
                    MAX_WAIT_MS
                } else {
                    (event.when - wake) as u32
                }
            },
            None => IDLE_WAIT_MS,
        }
    }

    /// One pass of the worker at `now`: accepts the batch, fires everything
    /// that is due, and returns how many milliseconds to rest.
    pub fn run_once_at(&mut self, requests: Vec<SchedulingRequest>, now: i64) -> (wait: u32)
        ensures
            final(self).pending() == after_pass(old(self).pending(), requests@, now),
            !some_due(final(self).pending(), now),
            wait == wait_interval(final(self).pending(), now),
    {
        self.drain_request_queue(requests, now);
        self.fire_due_events(now);
        proof {
            lemma_remaining_not_due(old(self).pending().add(scheduled(requests@, now)), now);
        }
        self.ms_until_next_event(now)
    }

    /// One pass of the worker at the moment that its clock shows. The clock is
    /// read once, after the batch has been handed over, so every request of the
    /// batch was made no later than the moment its delay is counted from.
    /// Whatever the clock showed, the pass is that of `run_once_at` at that
    /// moment.
    pub fn run_once(&mut self, requests: Vec<SchedulingRequest>) -> (wait: u32)
        ensures
            exists|now: i64|
                {
                    &&& final(self).pending() == #[trigger] after_pass(old(self).pending(), requests@, now)
                    &&& wait == wait_interval(final(self).pending(), now)
                },
    {
        let now = self.now_ms();
        self.run_once_at(requests, now)
    }
}

} // verus!
