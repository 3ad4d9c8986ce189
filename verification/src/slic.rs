//! The controller core: priorities, the pending flags, the ready queue and
//! the threshold that masks it.

use crate::queue::{
    entry_le, heap_entries, heap_len, heap_new, heap_peek, heap_pop, heap_push, is_top,
    lemma_top_unique, QUEUE_CAPACITY,
};
use heapless::binary_heap::{BinaryHeap, Max};
use vstd::multiset::Multiset;
use vstd::prelude::*;

verus! {

/// Number of `true` flags in `flags`.
pub open spec fn count_true(flags: Seq<bool>) -> nat
    decreases flags.len(),
{
    if flags.len() == 0 {
        0
    } else {
        count_true(flags.drop_last()) + if flags.last() {
            1nat
        } else {
            0nat
        }
    }
}

/// No more flags can be raised than there are flags.
pub proof fn lemma_count_true_bound(flags: Seq<bool>)
    ensures
        count_true(flags) <= flags.len(),
    decreases flags.len(),
{
    if flags.len() > 0 {
        lemma_count_true_bound(flags.drop_last());
    }
}

/// Writing one flag changes the count by what that flag gains or loses.
pub proof fn lemma_count_true_update(flags: Seq<bool>, i: int, flag: bool)
    requires
        0 <= i < flags.len(),
    ensures
        count_true(flags.update(i, flag)) + (if flags[i] {
            1nat
        } else {
            0nat
        }) == count_true(flags) + (if flag {
            1nat
        } else {
            0nat
        }),
    decreases flags.len(),
{
    let after = flags.update(i, flag);
    if i == flags.len() - 1 {
        assert(after.drop_last() =~= flags.drop_last());
    } else {
        assert(after.drop_last() =~= flags.drop_last().update(i, flag));
        lemma_count_true_update(flags.drop_last(), i, flag);
    }
}

/// Where no flag is raised the count is zero.
pub proof fn lemma_count_true_none(flags: Seq<bool>)
    requires
        forall|i: int| 0 <= i < flags.len() ==> !flags[i],
    ensures
        count_true(flags) == 0,
    decreases flags.len(),
{
    if flags.len() > 0 {
        lemma_count_true_none(flags.drop_last());
    }
}

/// The controller as a mathematical value.
#[verifier::ext_equal]
pub struct SlicView {
    /// The current mask: only entries of a strictly greater priority are dispatched.
    pub threshold: u8,
    /// The priority assigned to each source; `0` disables the source.
    pub priorities: Seq<u8>,
    /// Which sources have been signalled and still await dispatch.
    pub pending: Seq<bool>,
    /// The entries `(priority, identity)` that wait in the ready queue.
    pub queue: Multiset<(u8, u16)>,
}

impl SlicView {
    /// The controller of `sources` sources as it is created: unmasked, every
    /// source disabled, nothing pending.
    pub open spec fn init(sources: nat) -> SlicView {
        SlicView {
            threshold: 0,
            priorities: Seq::new(sources, |i: int| 0u8),
            pending: Seq::new(sources, |i: int| false),
            queue: Multiset::empty(),
        }
    }

    /// Number of sources the controller serves.
    pub open spec fn sources(self) -> nat {
        self.priorities.len()
    }

    /// Every queued entry belongs to a pending source and was queued with an
    /// enabling priority; it occurs once.
    pub open spec fn entries_are_pending(self) -> bool {
        forall|e: (u8, u16)| #[trigger]
            self.queue.count(e) > 0 ==> e.0 > 0 && e.1 < self.pending.len() && self.pending[e.1 as int]
                && self.queue.count(e) == 1
    }

    /// No source has two entries in the queue.
    pub open spec fn one_entry_per_source(self) -> bool {
        forall|a: (u8, u16), b: (u8, u16)|
            #![trigger self.queue.count(a), self.queue.count(b)]
            self.queue.count(a) > 0 && self.queue.count(b) > 0 && a.1 == b.1 ==> a == b
    }

    /// Every pending source has an entry in the queue.
    pub open spec fn pending_are_queued(self) -> bool {
        forall|i: int|
            0 <= i < self.pending.len() && #[trigger] self.pending[i] ==> exists|p: u8| #[trigger]
                self.queue.count((p, i as u16)) > 0
    }

    /// The invariant of the controller: a source is pending exactly when one
    /// entry for it sits in the queue, and the queue is as long as there are
    /// pending sources.
    pub open spec fn wf(self) -> bool {
        &&& self.pending.len() == self.priorities.len()
        &&& self.sources() <= QUEUE_CAPACITY
        &&& self.entries_are_pending()
        &&& self.one_entry_per_source()
        &&& self.pending_are_queued()
        &&& self.queue.len() == count_true(self.pending)
    }

    /// Some queued entry has a priority above the threshold.
    pub open spec fn ready(self) -> bool {
        exists|e: (u8, u16)| #[trigger] self.queue.count(e) > 0 && e.0 > self.threshold
    }

    /// The greatest queued entry.
    pub open spec fn top(self) -> (u8, u16) {
        choose|e: (u8, u16)| is_top(self.queue, e)
    }

    /// The controller after `priority` is assigned to source `id`. The queue is
    /// left alone: an entry already queued keeps the priority it was queued with.
    pub open spec fn set_priority(self, id: u16, priority: u8) -> SlicView {
        SlicView { priorities: self.priorities.update(id as int, priority), ..self }
    }

    /// The controller after the threshold is written.
    pub open spec fn set_threshold(self, threshold: u8) -> SlicView {
        SlicView { threshold, ..self }
    }

    /// Raising the threshold: to a strictly higher level it succeeds with the
    /// level it replaces; any other level is refused and changes nothing.
    pub open spec fn raise_threshold(self, priority: u8) -> (Result<u8, ()>, SlicView) {
        if priority > self.threshold {
            (Ok(self.threshold), self.set_threshold(priority))
        } else {
            (Err(()), self)
        }
    }

    /// The controller after source `id` is signalled: nothing happens to a
    /// disabled source or to one already pending; any other becomes pending
    /// and enters the queue with its current priority.
    pub open spec fn pend(self, id: u16) -> SlicView {
        if self.priorities[id as int] == 0 || self.pending[id as int] {
            self
        } else {
            SlicView {
                pending: self.pending.update(id as int, true),
                queue: self.queue.insert((self.priorities[id as int], id)),
                ..self
            }
        }
    }

    /// Taking the next entry to dispatch: when ready, the greatest entry
    /// leaves the queue and its source stops pending; else nothing changes.
    pub open spec fn pop(self) -> (Option<(u8, u16)>, SlicView) {
        if self.ready() {
            let e = self.top();
            (
                Some(e),
                SlicView {
                    pending: self.pending.update(e.1 as int, false),
                    queue: self.queue.remove(e),
                    ..self
                },
            )
        } else {
            (None, self)
        }
    }
}

/// Signalling a disabled source changes nothing: neither the pending flags
/// nor the queue.
pub proof fn theorem_pend_disabled(s: SlicView, id: u16)
    requires
        (id as int) < s.sources(),
        s.priorities[id as int] == 0,
    ensures
        s.pend(id) == s,
{
}

/// Signalling a source twice with nothing in between leaves the controller
/// as signalling it once does.
pub proof fn theorem_pend_idempotent(s: SlicView, id: u16)
    requires
        s.pending.len() == s.priorities.len(),
        (id as int) < s.sources(),
    ensures
        s.pend(id).pend(id) == s.pend(id),
{
}

/// Taking out of a queue whose greatest entry `e` lies above the threshold
/// yields `e`, removes it and clears the pending flag of its source.
pub proof fn lemma_pop_takes_top(s: SlicView, e: (u8, u16))
    requires
        is_top(s.queue, e),
        e.0 > s.threshold,
    ensures
        s.pop() == (
            Some(e),
            SlicView { pending: s.pending.update(e.1 as int, false), queue: s.queue.remove(e), ..s },
        ),
{
    assert(s.queue.count(e) > 0);
    lemma_top_unique(s.queue, e, s.top());
}

/// A source that is enabled and not pending becomes pending when signalled
/// and enters the queue with its priority.
pub proof fn lemma_pend_enters_queue(s: SlicView, id: u16)
    requires
        s.priorities[id as int] > 0,
        !s.pending[id as int],
    ensures
        s.pend(id) == (SlicView {
            pending: s.pending.update(id as int, true),
            queue: s.queue.insert((s.priorities[id as int], id)),
            ..s
        }),
{
}

/// In a controller that upholds its invariant and whose queue is empty, no
/// source is pending.
pub proof fn lemma_empty_queue_nothing_pending(s: SlicView)
    requires
        s.wf(),
        s.queue.len() == 0,
    ensures
        forall|i: int| 0 <= i < s.pending.len() ==> !s.pending[i],
        s.queue == Multiset::<(u8, u16)>::empty(),
{
    assert forall|e: (u8, u16)| s.queue.count(e) == 0 by {
        vstd::multiset::axiom_count_le_len(s.queue, e);
    }
    assert(s.queue =~= Multiset::empty());
    assert forall|i: int| 0 <= i < s.pending.len() implies !s.pending[i] by {
        if s.pending[i] {
            let p = choose|p: u8| #[trigger] s.queue.count((p, i as u16)) > 0;
            assert(s.queue.count((p, i as u16)) > 0);
        }
    }
}

/// A queue of three entries of descending priorities above the threshold is
/// emptied in that order.
proof fn lemma_drain_three(t: SlicView, eh: (u8, u16), em: (u8, u16), el: (u8, u16))
    requires
        t.queue == Multiset::<(u8, u16)>::empty().insert(eh).insert(em).insert(el),
        eh.0 > em.0 > el.0 > t.threshold,
    ensures
        ({
            let (r1, s4) = t.pop();
            let (r2, s5) = s4.pop();
            let (r3, s6) = s5.pop();
            let (r4, s7) = s6.pop();
            &&& r1 == Some(eh)
            &&& r2 == Some(em)
            &&& r3 == Some(el)
            &&& r4 == None::<(u8, u16)>
            &&& s7 == (SlicView {
                pending: t.pending.update(eh.1 as int, false).update(em.1 as int, false).update(
                    el.1 as int,
                    false,
                ),
                queue: Multiset::<(u8, u16)>::empty(),
                ..t
            })
        }),
{
    assert(is_top(t.queue, eh)) by {
        assert forall|x: (u8, u16)| #[trigger] t.queue.count(x) > 0 implies entry_le(x, eh) by {
            assert(x == eh || x == em || x == el);
        }
    }
    lemma_pop_takes_top(t, eh);
    let s4 = t.pop().1;
    assert(s4.queue =~= Multiset::<(u8, u16)>::empty().insert(em).insert(el));
    assert(is_top(s4.queue, em)) by {
        assert forall|x: (u8, u16)| #[trigger] s4.queue.count(x) > 0 implies entry_le(x, em) by {
            assert(x == em || x == el);
        }
    }
    lemma_pop_takes_top(s4, em);
    let s5 = s4.pop().1;
    assert(s5.queue =~= Multiset::<(u8, u16)>::empty().insert(el));
    assert(is_top(s5.queue, el)) by {
        assert forall|x: (u8, u16)| #[trigger] s5.queue.count(x) > 0 implies entry_le(x, el) by {
            assert(x == el);
        }
    }
    lemma_pop_takes_top(s5, el);
    let s6 = s5.pop().1;
    assert(s6.queue =~= Multiset::<(u8, u16)>::empty());
    assert(!s6.ready());
}

/// Signalling three distinct sources that are enabled and not pending puts
/// their three entries into the queue and raises their three flags, in
/// whatever order they are signalled.
proof fn lemma_pend_three(s: SlicView, first: u16, second: u16, third: u16)
    requires
        s.pending.len() == s.priorities.len(),
        (first as int) < s.sources(),
        (second as int) < s.sources(),
        (third as int) < s.sources(),
        first != second && second != third && first != third,
        s.priorities[first as int] > 0 && !s.pending[first as int],
        s.priorities[second as int] > 0 && !s.pending[second as int],
        s.priorities[third as int] > 0 && !s.pending[third as int],
    ensures
        s.pend(first).pend(second).pend(third) == (SlicView {
            pending: s.pending.update(first as int, true).update(second as int, true).update(
                third as int,
                true,
            ),
            queue: s.queue.insert((s.priorities[first as int], first)).insert(
                (s.priorities[second as int], second),
            ).insert((s.priorities[third as int], third)),
            ..s
        }),
{
    lemma_pend_enters_queue(s, first);
    let s1 = s.pend(first);
    lemma_pend_enters_queue(s1, second);
    let s2 = s1.pend(second);
    lemma_pend_enters_queue(s2, third);
}

/// Three sources of priorities `high > mid > low`, signalled in any order on
/// an unmasked controller with nothing pending, are taken out in the order
/// of their priorities, highest first; after them nothing is taken out and
/// the controller is as it was before they were signalled.
pub proof fn theorem_priority_order(
    s: SlicView,
    first: u16,
    second: u16,
    third: u16,
    high: u16,
    mid: u16,
    low: u16,
)
    requires
        s.wf(),
        s.threshold == 0,
        s.queue.len() == 0,
        (high as int) < s.sources(),
        (mid as int) < s.sources(),
        (low as int) < s.sources(),
        s.priorities[high as int] > s.priorities[mid as int] > s.priorities[low as int] > 0,
        first == high || first == mid || first == low,
        second == high || second == mid || second == low,
        third == high || third == mid || third == low,
        first != second && second != third && first != third,
    ensures
        ({
            let s3 = s.pend(first).pend(second).pend(third);
            let (r1, s4) = s3.pop();
            let (r2, s5) = s4.pop();
            let (r3, s6) = s5.pop();
            let (r4, s7) = s6.pop();
            &&& r1 == Some((s.priorities[high as int], high))
            &&& r2 == Some((s.priorities[mid as int], mid))
            &&& r3 == Some((s.priorities[low as int], low))
            &&& r4 == None::<(u8, u16)>
            &&& s7 == s
        }),
{
    let eh = (s.priorities[high as int], high);
    let em = (s.priorities[mid as int], mid);
    let el = (s.priorities[low as int], low);
    lemma_empty_queue_nothing_pending(s);
    lemma_pend_three(s, first, second, third);
    let s3 = s.pend(first).pend(second).pend(third);
    assert(s3.queue =~= Multiset::<(u8, u16)>::empty().insert(eh).insert(em).insert(el));
    lemma_drain_three(s3, eh, em, el);
    let s7 = s3.pop().1.pop().1.pop().1.pop().1;
    assert(s7.pending =~= s.pending);
}

/// Assigning a priority to a source changes nothing about what is taken
/// out next, nor about anything taken out later: the same entry leaves the
/// queue, with the priority it was queued with, whether the priority is
/// assigned before or after. An entry of a source that has since been
/// disabled is taken out all the same.
pub proof fn theorem_priority_change_keeps_entries(s: SlicView, id: u16, priority: u8)
    requires
        (id as int) < s.sources(),
    ensures
        s.set_priority(id, priority).ready() == s.ready(),
        s.set_priority(id, priority).top() == s.top(),
        s.set_priority(id, priority).pop().0 == s.pop().0,
        s.set_priority(id, priority).pop().1 == s.pop().1.set_priority(id, priority),
{
    let t = s.set_priority(id, priority);
    assert(t.queue == s.queue);
    assert(t.pop().1 =~= s.pop().1.set_priority(id, priority));
}

/// Software interrupt controller for `N` sources.
#[allow(clippy::upper_case_acronyms)]
pub struct SLIC<const N: usize> {
    /// Priority threshold. Only a pending source of a strictly higher
    /// priority is dispatched.
    threshold: u8,
    /// The priority assigned to each source. Priority 0 means "never interrupt".
    priorities: [u8; N],
    /// Whether each source is pending.
    pending: [bool; N],
    /// Priority queue of the pending sources.
    queue: BinaryHeap<(u8, u16), Max, QUEUE_CAPACITY>,
}

impl<const N: usize> View for SLIC<N> {
    type V = SlicView;

    closed spec fn view(&self) -> SlicView {
        SlicView {
            threshold: self.threshold,
            priorities: self.priorities@,
            pending: self.pending@,
            queue: heap_entries(self.queue),
        }
    }
}

impl<const N: usize> SLIC<N> {
    /// The controller upholds its invariant.
    pub open spec fn wf(&self) -> bool {
        self@.wf() && self@.sources() == N
    }

    /// Creates a controller: threshold 0, every source disabled, nothing pending.
    pub fn new() -> (slic: Self)
        requires
            N <= QUEUE_CAPACITY,
        ensures
            slic.wf(),
            slic@ == SlicView::init(N as nat),
    {
        let slic = SLIC { threshold: 0, priorities: [0;N], pending: [false;N], queue: heap_new() };
        proof {
            assert(slic@.priorities =~= SlicView::init(N as nat).priorities);
            assert(slic@.pending =~= SlicView::init(N as nat).pending);
            lemma_count_true_none(slic@.pending);
        }
        slic
    }

    /// Returns the priority of a source.
    pub fn get_priority(&self, interrupt: u16) -> (priority: u8)
        requires
            (interrupt as int) < N,
        ensures
            priority == self@.priorities[interrupt as int],
    {
        self.priorities[interrupt as usize]
    }

    /// Sets the priority of a source. Priority 0 means "never interrupt".
    ///
    /// A source that is already queued stays queued with the priority it had
    /// when it was signalled, and is dispatched with that priority.
    pub fn set_priority(&mut self, interrupt: u16, priority: u8)
        requires
            old(self).wf(),
            (interrupt as int) < N,
        ensures
            final(self).wf(),
            final(self)@ == old(self)@.set_priority(interrupt, priority),
    {
        self.priorities[interrupt as usize] = priority;
        proof {
            lemma_same_queue_keeps_wf(old(self)@, self@);
        }
    }

    /// Returns the current priority threshold.
    pub fn get_threshold(&self) -> (threshold: u8)
        ensures
            threshold == self@.threshold,
    {
        self.threshold
    }

    /// Sets the priority threshold, to any level.
    ///
    /// Lowering the threshold inside a section that relies on it lets sources
    /// in that the section meant to keep out. Use [`SLIC::raise_threshold`]
    /// where the threshold must only ever go up.
    pub fn set_threshold(&mut self, priority: u8)
        requires
            old(self).wf(),
        ensures
            final(self).wf(),
            final(self)@ == old(self)@.set_threshold(priority),
    {
        self.threshold = priority;
        proof {
            lemma_same_queue_keeps_wf(old(self)@, self@);
        }
    }

    /// Raises the priority threshold. A level above the current threshold
    /// replaces it and the replaced level is returned; any other level is
    /// refused and the controller stays as it was.
    pub fn raise_threshold(&mut self, priority: u8) -> (raised: Result<u8, ()>)
        requires
            old(self).wf(),
        ensures
            final(self).wf(),
            (raised, final(self)@) == old(self)@.raise_threshold(priority),
            raised is Ok <==> priority > old(self)@.threshold,
    {
        if priority > self.threshold {
            let prev = self.threshold;
            self.threshold = priority;
            proof {
                lemma_same_queue_keeps_wf(old(self)@, self@);
            }
            Ok(prev)
        } else {
            Err(())
        }
    }

    /// Checks whether a source is pending.
    pub fn is_pending(&self, interrupt: u16) -> (pending: bool)
        requires
            (interrupt as int) < N,
        ensures
            pending == self@.pending[interrupt as int],
    {
        self.pending[interrupt as usize]
    }

    /// Number of entries in the ready queue.
    pub fn queued(&self) -> (len: usize)
        requires
            self.wf(),
        ensures
            len == self@.queue.len(),
            len == count_true(self@.pending),
            len <= N,
    {
        proof {
            lemma_count_true_bound(self@.pending);
        }
        heap_len(&self.queue)
    }

    /// Returns `true` if the next queued source can be dispatched: its
    /// priority is above the threshold.
    pub fn is_ready(&self) -> (ready: bool)
        ensures
            ready == self@.ready(),
    {
        match heap_peek(&self.queue) {
            Some((p, id)) => {
                proof {
                    if p > self.threshold {
                        assert(self@.queue.count((p, id)) > 0);
                    } else {
                        assert forall|e: (u8, u16)| #[trigger]
                            self@.queue.count(e) > 0 implies e.0 <= self@.threshold by {
                            assert(entry_le(e, (p, id)));
                        }
                    }
                }
                p > self.threshold
            },
            None => {
                proof {
                    assert forall|e: (u8, u16)| self@.queue.count(e) == 0 by {
                        vstd::multiset::axiom_count_le_len(self@.queue, e);
                    }
                }
                false
            },
        }
    }

    /// Marks a source as pending.
    ///
    /// A source of priority 0, or one that is already pending, is left as it
    /// is: the request is silently ignored.
    pub fn pend(&mut self, interrupt: u16)
        requires
            old(self).wf(),
            (interrupt as int) < N,
        ensures
            final(self).wf(),
            final(self)@ == old(self)@.pend(interrupt),
            old(self)@.priorities[interrupt as int] == 0 ==> final(self)@ == old(self)@,
    {
        let i = interrupt as usize;
        if self.priorities[i] == 0 || self.pending[i] {
            return;
        }
        let entry = (self.priorities[i], interrupt);
        proof {
            lemma_pend_keeps_wf(self@, interrupt);
            lemma_count_true_update(self@.pending, i as int, true);
            lemma_count_true_bound(self@.pending.update(i as int, true));
        }
        // The queue has room: it holds one entry per pending source, and
        // this source is not pending.
        if heap_push(&mut self.queue, entry).is_ok() {
            self.pending[i] = true;
        }
    }

    /// Takes out the pending source of the highest priority, if that priority
    /// is above the threshold, and returns it with the priority it was queued
    /// with. Among sources of equal priority the greater identity goes first.
    pub fn pop(&mut self) -> (next: Option<(u8, u16)>)
        requires
            old(self).wf(),
        ensures
            final(self).wf(),
            (next, final(self)@) == old(self)@.pop(),
    {
        if !self.is_ready() {
            return None;
        }
        proof {
            let e = choose|e: (u8, u16)| #[trigger] self@.queue.count(e) > 0 && e.0 > self@.threshold;
            vstd::multiset::axiom_count_le_len(self@.queue, e);
            lemma_pop_keeps_wf(self@);
        }
        match heap_pop(&mut self.queue) {
            Some((priority, interrupt)) => {
                proof {
                    lemma_top_unique(old(self)@.queue, (priority, interrupt), old(self)@.top());
                }
                self.pending[interrupt as usize] = false;
                Some((priority, interrupt))
            },
            None => None,
        }
    }
}

/// The invariant speaks of the pending flags and the queue alone: a change
/// to the threshold or to a priority keeps it.
pub proof fn lemma_same_queue_keeps_wf(s: SlicView, t: SlicView)
    requires
        s.wf(),
        t.pending == s.pending,
        t.queue == s.queue,
        t.priorities.len() == s.priorities.len(),
    ensures
        t.wf(),
{
    assert forall|i: int| 0 <= i < t.pending.len() && #[trigger] t.pending[i] implies exists|p: u8| #[trigger]
        t.queue.count((p, i as u16)) > 0 by {
        assert(s.pending[i]);
        let p = choose|p: u8| #[trigger] s.queue.count((p, i as u16)) > 0;
        assert(t.queue.count((p, i as u16)) > 0);
    }
}

/// Signalling a source keeps the invariant.
pub proof fn lemma_pend_keeps_wf(s: SlicView, id: u16)
    requires
        s.wf(),
        (id as int) < s.sources(),
    ensures
        s.pend(id).wf(),
{
    let t = s.pend(id);
    if t != s {
        let entry = (s.priorities[id as int], id);
        lemma_count_true_update(s.pending, id as int, true);
        assert(s.queue.count(entry) == 0);
        assert forall|e: (u8, u16)| #[trigger] t.queue.count(e) > 0 implies e.0 > 0 && e.1
            < t.pending.len() && t.pending[e.1 as int] && t.queue.count(e) == 1 by {
            if e != entry {
                assert(s.queue.count(e) > 0);
            }
        }
        assert forall|a: (u8, u16), b: (u8, u16)|
            #![trigger t.queue.count(a), t.queue.count(b)]
            t.queue.count(a) > 0 && t.queue.count(b) > 0 && a.1 == b.1 implies a == b by {
            if a != entry {
                assert(s.queue.count(a) > 0);
            }
            if b != entry {
                assert(s.queue.count(b) > 0);
            }
        }
        assert forall|i: int| 0 <= i < t.pending.len() && #[trigger] t.pending[i] implies exists|p: u8| #[trigger]
            t.queue.count((p, i as u16)) > 0 by {
            if i == id as int {
                assert(t.queue.count((entry.0, i as u16)) > 0);
            } else {
                assert(s.pending[i]);
                let p = choose|p: u8| #[trigger] s.queue.count((p, i as u16)) > 0;
                assert(t.queue.count((p, i as u16)) > 0);
            }
        }
    }
}

/// Taking the next entry keeps the invariant, and what is taken is a queued
/// entry of a pending source.
pub proof fn lemma_pop_keeps_wf(s: SlicView)
    requires
        s.wf(),
    ensures
        s.pop().1.wf(),
        s.ready() ==> is_top(s.queue, s.top()) && s.top().0 > s.threshold && (s.top().1 as int)
            < s.sources() && s.pending[s.top().1 as int],
{
    if s.ready() {
        lemma_top_exists(s.queue);
        let e = s.top();
        let t = s.pop().1;
        let w = choose|w: (u8, u16)| #[trigger] s.queue.count(w) > 0 && w.0 > s.threshold;
        assert(entry_le(w, e));
        lemma_count_true_update(s.pending, e.1 as int, false);
        assert forall|x: (u8, u16)| #[trigger] t.queue.count(x) > 0 implies x.0 > 0 && x.1
            < t.pending.len() && t.pending[x.1 as int] && t.queue.count(x) == 1 by {
            assert(s.queue.count(x) > 0);
            assert(x != e);
        }
        assert forall|a: (u8, u16), b: (u8, u16)|
            #![trigger t.queue.count(a), t.queue.count(b)]
            t.queue.count(a) > 0 && t.queue.count(b) > 0 && a.1 == b.1 implies a == b by {
            assert(s.queue.count(a) > 0);
            assert(s.queue.count(b) > 0);
        }
        assert forall|i: int| 0 <= i < t.pending.len() && #[trigger] t.pending[i] implies exists|p: u8| #[trigger]
            t.queue.count((p, i as u16)) > 0 by {
            assert(s.pending[i]);
            let p = choose|p: u8| #[trigger] s.queue.count((p, i as u16)) > 0;
            assert((p, i as u16) != e);
            assert(t.queue.count((p, i as u16)) > 0);
        }
    }
}

/// A queue that holds an entry has a greatest entry.
pub proof fn lemma_top_exists(queue: Multiset<(u8, u16)>)
    requires
        queue.len() > 0,
    ensures
        exists|e: (u8, u16)| is_top(queue, e),
    decreases queue.len(),
{
    let x = queue.choose();
    let rest = queue.remove(x);
    if rest.len() == 0 {
        assert forall|y: (u8, u16)| #[trigger] queue.count(y) > 0 implies entry_le(y, x) by {
            if y != x {
                assert(rest.count(y) > 0);
                vstd::multiset::axiom_count_le_len(rest, y);
            }
        }
        assert(is_top(queue, x));
    } else {
        lemma_top_exists(rest);
        let m = choose|e: (u8, u16)| is_top(rest, e);
        let best = if entry_le(m, x) {
            x
        } else {
            m
        };
        assert forall|y: (u8, u16)| #[trigger] queue.count(y) > 0 implies entry_le(y, best) by {
            if y != x {
                assert(rest.count(y) > 0);
            }
        }
        assert(is_top(queue, best));
    }
}

} // verus!
