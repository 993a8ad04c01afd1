//! The worker's rules, stated over the pending events as a multiset: which
//! events a batch of requests becomes, which are due at a moment, what a pass
//! leaves pending and how long the worker rests afterwards.

use crate::event::event_for;
use crate::event::ScheduledEvent;
use crate::event::SchedulingRequest;
use crate::heap::is_earliest;
use vstd::multiset::Multiset;
use vstd::prelude::*;
use vstd::seq_lib::to_multiset_build;
use vstd::seq_lib::to_multiset_len;

verus! {

/// Rest, in milliseconds, while nothing is pending.
pub const IDLE_WAIT_MS: u32 = 1000;

/// How long before the next deadline the worker wakes to look again.
pub const EARLY_WAKE_MS: u32 = 4000;

/// Shortest rest while something is pending.
pub const MIN_WAIT_MS: u32 = 25;

/// Longest rest while something is pending.
pub const MAX_WAIT_MS: u32 = 10000;

/// The events that a batch of requests becomes when all are accepted at `now`.
pub open spec fn scheduled(requests: Seq<SchedulingRequest>, now: i64) -> Multiset<ScheduledEvent> {
    requests.map_values(|r: SchedulingRequest| event_for(r, now)).to_multiset()
}

/// No request, no event.
pub proof fn lemma_scheduled_none(now: i64)
    ensures
        scheduled(Seq::<SchedulingRequest>::empty(), now) == Multiset::<ScheduledEvent>::empty(),
{
    let events = Seq::<SchedulingRequest>::empty().map_values(|r: SchedulingRequest| event_for(r, now));
    to_multiset_len(events);
    vstd::multiset::lemma_multiset_empty_len(events.to_multiset());
}

/// One more request in the batch is one more event.
pub proof fn lemma_scheduled_push(requests: Seq<SchedulingRequest>, request: SchedulingRequest, now: i64)
    ensures
        scheduled(requests.push(request), now) == scheduled(requests, now).insert(event_for(request, now)),
{
    let convert = |r: SchedulingRequest| event_for(r, now);
    assert(requests.push(request).map_values(convert) =~= requests.map_values(convert).push(
        event_for(request, now),
    ));
    to_multiset_build(requests.map_values(convert), event_for(request, now));
}

/// Some pending event has reached its deadline at `now`.
pub open spec fn some_due(pending: Multiset<ScheduledEvent>, now: i64) -> bool {
    exists|e: ScheduledEvent| #[trigger] pending.contains(e) && e.due(now)
}

/// The pending events whose deadline still lies after `now`.
pub open spec fn remaining(pending: Multiset<ScheduledEvent>, now: i64) -> Multiset<ScheduledEvent> {
    pending.filter(|e: ScheduledEvent| !e.due(now))
}

/// The pending events whose deadline has been reached at `now`.
pub open spec fn due_events(pending: Multiset<ScheduledEvent>, now: i64) -> Multiset<ScheduledEvent> {
    pending.filter(|e: ScheduledEvent| e.due(now))
}

/// The earliest deadline among the pending events. Meaningful when at least one
/// is pending.
pub open spec fn next_deadline(pending: Multiset<ScheduledEvent>) -> int {
    (choose|e: ScheduledEvent| is_earliest(pending, e)).when as int
}

/// `x` limited to the range from `lo` to `hi`.
pub open spec fn clamp(x: int, lo: int, hi: int) -> int {
    if x < lo {
        lo
    } else if x > hi {
        hi
    } else {
        x
    }
}

/// How long the worker rests at `now`: the idle interval while nothing is
/// pending; otherwise until `EARLY_WAKE_MS` before the next deadline, but no
/// shorter than `MIN_WAIT_MS` and no longer than `MAX_WAIT_MS`.
pub open spec fn wait_interval(pending: Multiset<ScheduledEvent>, now: i64) -> int {
    if pending.len() == 0 {
        IDLE_WAIT_MS as int
    } else {
        clamp(next_deadline(pending) - now - EARLY_WAKE_MS, MIN_WAIT_MS as int, MAX_WAIT_MS as int)
    }
}

/// The pending events after one pass at `now`: the batch is accepted, then
/// everything due is fired.
pub open spec fn after_pass(
    pending: Multiset<ScheduledEvent>,
    requests: Seq<SchedulingRequest>,
    now: i64,
) -> Multiset<ScheduledEvent> {
    remaining(pending.add(scheduled(requests, now)), now)
}

/// A non-empty multiset of events has an earliest one.
pub proof fn lemma_earliest_exists(pending: Multiset<ScheduledEvent>)
    requires
        pending.len() > 0,
    ensures
        exists|e: ScheduledEvent| is_earliest(pending, e),
    decreases pending.len(),
{
    broadcast use vstd::multiset::group_multiset_axioms;

    vstd::multiset::lemma_multiset_empty_len(pending);
    let x = pending.choose();
    let rest = pending.remove(x);
    assert(Multiset::singleton(x).subset_of(pending));
    if rest.len() == 0 {
        vstd::multiset::lemma_multiset_empty_len(rest);
        assert forall|f: ScheduledEvent| #[trigger] pending.contains(f) implies x.when <= f.when by {
            assert(rest.count(f) == 0);
        }
        assert(is_earliest(pending, x));
    } else {
        lemma_earliest_exists(rest);
        let m = choose|m: ScheduledEvent| is_earliest(rest, m);
        if x.when <= m.when {
            assert forall|f: ScheduledEvent| #[trigger] pending.contains(f) implies x.when <= f.when by {
                if f != x {
                    assert(rest.contains(f));
                }
            }
            assert(is_earliest(pending, x));
        } else {
            assert forall|f: ScheduledEvent| #[trigger] pending.contains(f) implies m.when <= f.when by {
                if f != x {
                    assert(rest.contains(f));
                }
            }
            assert(pending.contains(m));
            assert(is_earliest(pending, m));
        }
    }
}

/// All earliest events of a multiset share one deadline.
pub proof fn lemma_next_deadline(pending: Multiset<ScheduledEvent>, e: ScheduledEvent)
    requires
        is_earliest(pending, e),
    ensures
        next_deadline(pending) == e.when,
{
    let c = choose|c: ScheduledEvent| is_earliest(pending, c);
    assert(is_earliest(pending, c));
    assert(pending.contains(c));
    assert(pending.contains(e));
}

/// A due event is a pending event.
pub proof fn lemma_due_is_pending(pending: Multiset<ScheduledEvent>, now: i64)
    requires
        some_due(pending, now),
    ensures
        pending.len() > 0,
{
    let e = choose|e: ScheduledEvent| #[trigger] pending.contains(e) && e.due(now);
    vstd::multiset::lemma_multiset_empty_len(pending);
    assert(pending.count(e) > 0);
}

/// While something is due, every earliest event is due.
pub proof fn lemma_earliest_is_due(pending: Multiset<ScheduledEvent>, e: ScheduledEvent, now: i64)
    requires
        some_due(pending, now),
        is_earliest(pending, e),
    ensures
        e.due(now),
{
    let d = choose|d: ScheduledEvent| #[trigger] pending.contains(d) && d.due(now);
    assert(pending.contains(d));
}

/// Taking a due event away leaves the events that are not yet due as they were.
pub proof fn lemma_remove_due(pending: Multiset<ScheduledEvent>, e: ScheduledEvent, now: i64)
    requires
        pending.contains(e),
        e.due(now),
    ensures
        remaining(pending.remove(e), now) == remaining(pending, now),
        pending.remove(e).len() + 1 == pending.len(),
{
    broadcast use vstd::multiset::group_multiset_axioms;

    assert(remaining(pending.remove(e), now) =~= remaining(pending, now));
    assert(Multiset::singleton(e).subset_of(pending));
}

/// Where nothing is due, everything remains.
pub proof fn lemma_nothing_due(pending: Multiset<ScheduledEvent>, now: i64)
    requires
        !some_due(pending, now),
    ensures
        remaining(pending, now) == pending,
{
    broadcast use vstd::multiset::group_multiset_axioms;

    assert forall|e: ScheduledEvent| remaining(pending, now).count(e) == pending.count(e) by {
        if pending.count(e) > 0 {
            assert(pending.contains(e));
        }
    }
    assert(remaining(pending, now) =~= pending);
}

/// Of what remains after `now`, nothing is due at `now`.
pub proof fn lemma_remaining_not_due(pending: Multiset<ScheduledEvent>, now: i64)
    ensures
        !some_due(remaining(pending, now), now),
{
    broadcast use vstd::multiset::group_multiset_axioms;

    assert forall|e: ScheduledEvent| #[trigger] remaining(pending, now).contains(e) implies !e.due(now) by {}
}

/// Every pending event is either due or remaining, never both.
pub proof fn lemma_split_by_deadline(pending: Multiset<ScheduledEvent>, now: i64)
    ensures
        due_events(pending, now).add(remaining(pending, now)) == pending,
        due_events(pending, now).len() + remaining(pending, now).len() == pending.len(),
{
    broadcast use vstd::multiset::group_multiset_axioms;

    assert(due_events(pending, now).add(remaining(pending, now)) =~= pending);
}

} // verus!
