//! What holds of the scheduler whatever is pending, whatever requests arrive
//! and whenever the worker wakes. Each law is stated over the rules of
//! `model`, which are what the worker's contracts speak of.

use crate::event::event_for;
use crate::event::ScheduledEvent;
use crate::event::SchedulingRequest;
use crate::heap::is_earliest;
use crate::model::after_pass;
use crate::model::due_events;
use crate::model::lemma_earliest_exists;
use crate::model::lemma_next_deadline;
use crate::model::lemma_remaining_not_due;
use crate::model::lemma_split_by_deadline;
use crate::model::next_deadline;
use crate::model::remaining;
use crate::model::scheduled;
use crate::model::some_due;
use crate::model::wait_interval;
use crate::model::MIN_WAIT_MS;
use vstd::multiset::Multiset;
use vstd::prelude::*;
use vstd::seq_lib::to_multiset_contains;
use vstd::seq_lib::to_multiset_len;

verus! {

/// No timer fires early. The event of a request that was accepted at
/// `accepted` is not due at any moment `now` less than its delay later, and a
/// pass at such a moment fires no instance of it: as many stay pending as
/// were pending or came with the batch.
pub proof fn law_never_fires_early(
    pending: Multiset<ScheduledEvent>,
    batch: Seq<SchedulingRequest>,
    request: SchedulingRequest,
    accepted: i64,
    now: i64,
)
    requires
        now - accepted < request.duration,
    ensures
        !event_for(request, accepted).due(now),
        due_events(pending, now).count(event_for(request, accepted)) == 0,
        remaining(pending, now).count(event_for(request, accepted)) == pending.count(
            event_for(request, accepted),
        ),
        after_pass(pending, batch, now).count(event_for(request, accepted)) == pending.count(
            event_for(request, accepted),
        ) + scheduled(batch, now).count(event_for(request, accepted)),
{
    broadcast use vstd::multiset::group_multiset_axioms;

}

/// A request with a delay that is accepted in a pass is pending after that
/// pass.
pub proof fn law_accepted_request_is_pending(
    pending: Multiset<ScheduledEvent>,
    batch: Seq<SchedulingRequest>,
    i: int,
    now: i64,
)
    requires
        0 <= i < batch.len(),
        batch[i].duration > 0,
    ensures
        after_pass(pending, batch, now).contains(event_for(batch[i], now)),
{
    broadcast use vstd::multiset::group_multiset_axioms;

    law_one_event_per_request(batch, now);
    law_never_fires_early(pending, batch, batch[i], now, now);
}

/// Every accepted request becomes exactly one pending event: a batch yields as
/// many events as it has requests, and the event of each request is among them.
pub proof fn law_one_event_per_request(batch: Seq<SchedulingRequest>, now: i64)
    ensures
        scheduled(batch, now).len() == batch.len(),
        forall|i: int| 0 <= i < batch.len() ==> scheduled(batch, now).contains(#[trigger] event_for(batch[i], now)),
{
    let events = batch.map_values(|r: SchedulingRequest| event_for(r, now));
    to_multiset_len(events);
    assert forall|i: int| 0 <= i < batch.len() implies scheduled(batch, now).contains(
        #[trigger] event_for(batch[i], now),
    ) by {
        assert(events[i] == event_for(batch[i], now));
        assert(events.contains(event_for(batch[i], now)));
        to_multiset_contains(events, event_for(batch[i], now));
    }
}

/// A pass fires everything that is due. After it no pending event is due, the
/// events that left are exactly those that were due, and none is lost or made
/// up: what stays and what was fired together are what was pending and what the
/// batch brought.
pub proof fn law_pass_fires_all_due(
    pending: Multiset<ScheduledEvent>,
    batch: Seq<SchedulingRequest>,
    now: i64,
)
    ensures
        !some_due(after_pass(pending, batch, now), now),
        forall|e: ScheduledEvent| e.due(now) ==> #[trigger] after_pass(pending, batch, now).count(e) == 0,
        due_events(pending.add(scheduled(batch, now)), now).add(after_pass(pending, batch, now))
            == pending.add(scheduled(batch, now)),
        due_events(pending.add(scheduled(batch, now)), now).len() + after_pass(pending, batch, now).len()
            == pending.len() + batch.len(),
{
    broadcast use vstd::multiset::group_multiset_axioms;

    let all = pending.add(scheduled(batch, now));
    lemma_remaining_not_due(all, now);
    lemma_split_by_deadline(all, now);
    law_one_event_per_request(batch, now);
}

/// Of two requests accepted at the same instant, the one with the shorter
/// delay fires no later. Its deadline is the earlier one; whenever the longer
/// one is due, so is the shorter; a pass that leaves the shorter one pending
/// leaves every pending instance of the longer one pending; and the longer one
/// is never an earliest event while the shorter one is pending, so it is never
/// taken first.
pub proof fn law_shorter_delay_fires_no_later(
    pending: Multiset<ScheduledEvent>,
    shorter: SchedulingRequest,
    longer: SchedulingRequest,
    accepted: i64,
    now: i64,
)
    requires
        shorter.duration < longer.duration,
    ensures
        event_for(shorter, accepted).when < event_for(longer, accepted).when,
        event_for(longer, accepted).due(now) ==> event_for(shorter, accepted).due(now),
        remaining(pending, now).contains(event_for(shorter, accepted)) ==> remaining(pending, now).count(
            event_for(longer, accepted),
        ) == pending.count(event_for(longer, accepted)),
        pending.contains(event_for(shorter, accepted)) ==> !is_earliest(pending, event_for(longer, accepted)),
{
    broadcast use vstd::multiset::group_multiset_axioms;

}

/// Events leave in the order of their deadlines: after an earliest event is
/// taken, an earliest of the rest is due no earlier.
pub proof fn law_fired_in_deadline_order(
    pending: Multiset<ScheduledEvent>,
    first: ScheduledEvent,
    second: ScheduledEvent,
)
    requires
        is_earliest(pending, first),
        is_earliest(pending.remove(first), second),
    ensures
        first.when <= second.when,
        pending.contains(second),
{
    broadcast use vstd::multiset::group_multiset_axioms;

    assert(pending.contains(second));
}

/// The worker does not oversleep. When it rests after a pass, with events
/// pending and none of them due, it wakes before the next deadline or less
/// than the shortest rest after it.
pub proof fn law_wakes_for_next_deadline(pending: Multiset<ScheduledEvent>, now: i64)
    requires
        pending.len() > 0,
        !some_due(pending, now),
    ensures
        now < next_deadline(pending),
        now + wait_interval(pending, now) < next_deadline(pending) + MIN_WAIT_MS,
{
    broadcast use vstd::multiset::group_multiset_axioms;

    vstd::multiset::lemma_multiset_empty_len(pending);
    let e = choose|e: ScheduledEvent| is_earliest(pending, e);
    lemma_earliest_exists(pending);
    lemma_next_deadline(pending, e);
    assert(pending.contains(e));
}

} // verus!
