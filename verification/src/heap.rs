//! The min-heap of pending events, keyed by deadline.

use crate::event::ScheduledEvent;
use vstd::multiset::Multiset;
use vstd::prelude::*;
use vstd::seq_lib::to_multiset_build;
use vstd::seq_lib::to_multiset_contains;
use vstd::seq_lib::to_multiset_len;
use vstd::seq_lib::to_multiset_remove;
use vstd::seq_lib::to_multiset_update;

verus! {

/// `e` is in `q` and no event of `q` has an earlier deadline.
pub open spec fn is_earliest(q: Multiset<ScheduledEvent>, e: ScheduledEvent) -> bool {
    &&& q.contains(e)
    &&& forall|f: ScheduledEvent| #[trigger] q.contains(f) ==> e.when <= f.when
}

/// Index of the parent of node `i` in the implicit binary tree.
spec fn parent(i: int) -> int {
    (i - 1) / 2
}

/// Node `i` is not due before its parent.
spec fn ordered_at(s: Seq<ScheduledEvent>, i: int) -> bool {
    s[parent(i)].when <= s[i].when
}

/// Node `i` is not due before its grandparent.
spec fn ordered_above(s: Seq<ScheduledEvent>, i: int) -> bool {
    s[parent(parent(i))].when <= s[i].when
}

/// Every node but the root is not due before its parent.
spec fn heap_ordered(s: Seq<ScheduledEvent>) -> bool {
    forall|i: int| 0 < i < s.len() ==> #[trigger] ordered_at(s, i)
}

/// In a heap-ordered sequence the root is due no later than any node.
proof fn lemma_root_earliest(s: Seq<ScheduledEvent>, i: int)
    requires
        heap_ordered(s),
        0 <= i < s.len(),
    ensures
        s[0].when <= s[i].when,
    decreases i,
{
    if i > 0 {
        assert(ordered_at(s, i));
        lemma_root_earliest(s, parent(i));
    }
}

/// The root of a non-empty heap-ordered sequence is an earliest event of its
/// contents.
proof fn lemma_root_is_earliest(s: Seq<ScheduledEvent>)
    requires
        heap_ordered(s),
        s.len() > 0,
    ensures
        is_earliest(s.to_multiset(), s[0]),
{
    let q = s.to_multiset();
    assert(s.contains(s[0]));
    to_multiset_contains(s, s[0]);
    assert forall|f: ScheduledEvent| #[trigger] q.contains(f) implies s[0].when <= f.when by {
        to_multiset_contains(s, f);
        let i = choose|i: int| 0 <= i < s.len() && s[i] == f;
        lemma_root_earliest(s, i);
    }
}

/// Exchanging two entries keeps the contents.
proof fn lemma_swap_keeps_contents(s: Seq<ScheduledEvent>, i: int, j: int)
    requires
        0 <= i < j < s.len(),
    ensures
        s.update(i, s[j]).update(j, s[i]).to_multiset() == s.to_multiset(),
{
    broadcast use vstd::multiset::group_multiset_axioms;

    let mid = s.update(i, s[j]);
    to_multiset_update(s, i, s[j]);
    to_multiset_update(mid, j, s[i]);
    assert(s.contains(s[i]));
    assert(s.contains(s[j]));
    to_multiset_contains(s, s[i]);
    to_multiset_contains(s, s[j]);
    assert(mid.update(j, s[i]).to_multiset() =~= s.to_multiset());
}

/// Taking the root out by moving the last entry into its place removes one
/// instance of the root from the contents.
proof fn lemma_take_root_contents(s: Seq<ScheduledEvent>)
    requires
        s.len() > 0,
    ensures
        s.update(0, s.last()).drop_last().to_multiset() == s.to_multiset().remove(s[0]),
{
    broadcast use vstd::multiset::group_multiset_axioms;

    let last = s.len() - 1;
    let moved = s.update(0, s.last());
    to_multiset_update(s, 0, s.last());
    assert(moved.drop_last() =~= moved.remove(last));
    to_multiset_remove(moved, last);
    assert(s.contains(s[0]));
    to_multiset_contains(s, s[0]);
    assert(moved.drop_last().to_multiset() =~= s.to_multiset().remove(s[0]));
}

/// Exchanges the entries at `i` and `j`.
fn swap_entries(v: &mut Vec<ScheduledEvent>, i: usize, j: usize)
    requires
        i < j < old(v).len(),
    ensures
        final(v)@ == old(v)@.update(i as int, old(v)@[j as int]).update(j as int, old(v)@[i as int]),
        final(v)@.to_multiset() == old(v)@.to_multiset(),
        final(v).len() == old(v).len(),
{
    let ghost before = v@;
    let (lo, hi) = v.as_mut_slice().split_at_mut(j);
    core::mem::swap(&mut lo[i], &mut hi[0]);
    proof {
        assert(v@ =~= before.update(i as int, before[j as int]).update(j as int, before[i as int]));
        lemma_swap_keeps_contents(before, i as int, j as int);
    }
}

/// Moves the entry at `start` towards the root until its parent is due no
/// later than it.
fn sift_up(entries: &mut Vec<ScheduledEvent>, start: usize)
    requires
        start < old(entries).len(),
        forall|i: int| 0 < i < old(entries).len() && i != start ==> #[trigger] ordered_at(old(entries)@, i),
        forall|c: int|
            0 < c < old(entries).len() && parent(c) == start && start > 0 ==> #[trigger] ordered_above(
                old(entries)@,
                c,
            ),
    ensures
        heap_ordered(final(entries)@),
        final(entries)@.to_multiset() == old(entries)@.to_multiset(),
{
    let mut k: usize = start;
    while k > 0
        invariant
            k < entries.len(),
            entries@.to_multiset() == old(entries)@.to_multiset(),
            forall|i: int| 0 < i < entries.len() && i != k ==> #[trigger] ordered_at(entries@, i),
            forall|c: int|
                0 < c < entries.len() && parent(c) == k && k > 0 ==> #[trigger] ordered_above(entries@, c),
        ensures
            heap_ordered(entries@),
        decreases k,
    {
        let p: usize = (k - 1) / 2;
        if entries[k].when >= entries[p].when {
            assert(ordered_at(entries@, k as int));
            break;
        }
        let ghost before = entries@;
        swap_entries(entries, p, k);
        proof {
            let after = entries@;
            assert forall|i: int| 0 < i < after.len() && i != p implies #[trigger] ordered_at(after, i) by {
                if i == k {
                } else if parent(i) == p {
                    assert(ordered_at(before, i));
                } else if parent(i) == k {
                    assert(ordered_above(before, i));
                } else {
                    assert(ordered_at(before, i));
                }
            }
            assert forall|c: int| 0 < c < after.len() && parent(c) == p && p > 0 implies #[trigger] ordered_above(
                after,
                c,
            ) by {
                assert(ordered_at(before, p as int));
                if c != k {
                    assert(ordered_at(before, c));
                }
            }
        }
        k = p;
    }
}

/// Moves the entry at the root away from it until neither child is due
/// before it.
fn sift_down(entries: &mut Vec<ScheduledEvent>)
    requires
        forall|i: int| 0 < i < old(entries).len() && parent(i) != 0 ==> #[trigger] ordered_at(old(entries)@, i),
    ensures
        heap_ordered(final(entries)@),
        final(entries)@.to_multiset() == old(entries)@.to_multiset(),
{
    let n: usize = entries.len();
    let half: usize = n / 2;
    let mut k: usize = 0;
    while k < half
        invariant
            n == entries.len(),
            half == n / 2,
            entries@.to_multiset() == old(entries)@.to_multiset(),
            forall|i: int| 0 < i < n && parent(i) != k ==> #[trigger] ordered_at(entries@, i),
            forall|c: int| 0 < c < n && parent(c) == k && k > 0 ==> #[trigger] ordered_above(entries@, c),
        ensures
            heap_ordered(entries@),
        decreases n - k,
    {
        let left: usize = 2 * k + 1;
        let right: usize = left + 1;
        let mut m: usize = left;
        if right < n && entries[right].when < entries[left].when {
            m = right;
        }
        if entries[k].when <= entries[m].when {
            assert forall|i: int| 0 < i < n implies #[trigger] ordered_at(entries@, i) by {
                if parent(i) == k {
                    assert(i == left || i == right);
                }
            }
            break;
        }
        let ghost before = entries@;
        swap_entries(entries, k, m);
        proof {
            let after = entries@;
            assert forall|i: int| 0 < i < n && parent(i) != m implies #[trigger] ordered_at(after, i) by {
                if i == m {
                } else if parent(i) == k {
                    assert(i == left || i == right);
                } else if i == k {
                    assert(ordered_above(before, m as int));
                } else {
                    assert(ordered_at(before, i));
                }
            }
            assert forall|c: int| 0 < c < n && parent(c) == m implies #[trigger] ordered_above(after, c) by {
                assert(ordered_at(before, c));
            }
        }
        k = m;
    }
    proof {
        assert forall|i: int| 0 < i < n implies #[trigger] ordered_at(entries@, i) by {
            if parent(i) == k && k >= half {
                assert(false);
            }
        }
    }
}

/// A priority queue of pending events that hands out an earliest one first.
pub struct EventHeap {
    entries: Vec<ScheduledEvent>,
}

impl View for EventHeap {
    type V = Multiset<ScheduledEvent>;

    /// The pending events, without order.
    closed spec fn view(&self) -> Multiset<ScheduledEvent> {
        self.entries@.to_multiset()
    }
}

impl EventHeap {
    /// The entries are laid out as a binary min-heap on the deadline.
    #[verifier::type_invariant]
    spec fn heap_shaped(self) -> bool {
        heap_ordered(self.entries@)
    }

    /// The number of pending events fits a machine word.
    pub proof fn lemma_len_fits(&self)
        ensures
            self@.len() <= usize::MAX,
    {
        to_multiset_len(self.entries@);
        assert(self.entries@.len() == self.entries.len());
    }

    /// An empty heap.
    pub fn new() -> (h: EventHeap)
        ensures
            h@ == Multiset::<ScheduledEvent>::empty(),
    {
        let h = EventHeap { entries: Vec::new() };
        proof {
            to_multiset_len(h.entries@);
            vstd::multiset::lemma_multiset_empty_len(h@);
        }
        h
    }

    /// Number of pending events.
    pub fn len(&self) -> (n: usize)
        ensures
            n == self@.len(),
    {
        proof {
            to_multiset_len(self.entries@);
        }
        self.entries.len()
    }

    /// Whether nothing is pending.
    pub fn is_empty(&self) -> (b: bool)
        ensures
            b == (self@.len() == 0),
    {
        self.len() == 0
    }

    /// Adds an event to the pending ones.
    pub fn push(&mut self, event: ScheduledEvent)
        ensures
            final(self)@ == old(self)@.insert(event),
    {
        proof {
            use_type_invariant(&*self);
            to_multiset_build(self.entries@, event);
        }
        let mut entries: Vec<ScheduledEvent> = Vec::new();
        core::mem::swap(&mut entries, &mut self.entries);
        let ghost before = entries@;
        entries.push(event);
        let last: usize = entries.len() - 1;
        proof {
            assert forall|i: int| 0 < i < entries.len() && i != last implies #[trigger] ordered_at(entries@, i) by {
                assert(ordered_at(before, i));
            }
        }
        sift_up(&mut entries, last);
        self.entries = entries;
    }

    /// An earliest pending event, if any, without removing it.
    pub fn peek(&self) -> (r: Option<&ScheduledEvent>)
        ensures
            self@.len() == 0 ==> r is None,
            self@.len() > 0 ==> r is Some && is_earliest(self@, *r.unwrap()),
    {
        proof {
            use_type_invariant(self);
            to_multiset_len(self.entries@);
        }
        if self.entries.len() == 0 {
            None
        } else {
            proof {
                lemma_root_is_earliest(self.entries@);
            }
            Some(&self.entries[0])
        }
    }

    /// Removes an earliest pending event, if any, and returns it.
    pub fn pop(&mut self) -> (r: Option<ScheduledEvent>)
        ensures
            old(self)@.len() == 0 ==> r is None && final(self)@ == old(self)@,
            old(self)@.len() > 0 ==> r is Some && is_earliest(old(self)@, r.unwrap()) && final(self)@
                == old(self)@.remove(r.unwrap()),
    {
        proof {
            use_type_invariant(&*self);
            to_multiset_len(self.entries@);
        }
        if self.entries.len() == 0 {
            return None;
        }
        let mut entries: Vec<ScheduledEvent> = Vec::new();
        core::mem::swap(&mut entries, &mut self.entries);
        let ghost before = entries@;
        proof {
            lemma_root_is_earliest(before);
            lemma_take_root_contents(before);
        }
        let event = entries.swap_remove(0);
        proof {
            assert forall|i: int| 0 < i < entries.len() && parent(i) != 0 implies #[trigger] ordered_at(entries@, i) by {
                assert(ordered_at(before, i));
            }
        }
        sift_down(&mut entries);
        self.entries = entries;
        Some(event)
    }
}

} // verus!
