//! The states a controller can reach, and what holds in all of them.

use crate::api::{ceiling_view, restored_view};
use crate::queue::QUEUE_CAPACITY;
use crate::slic::{
    count_true, lemma_count_true_none, lemma_pend_keeps_wf, lemma_pop_keeps_wf,
    lemma_same_queue_keeps_wf, theorem_priority_change_keeps_entries, SlicView,
};
use vstd::prelude::*;

verus! {

/// One operation on a controller.
pub enum Step {
    /// Assign a priority to a source.
    SetPriority(u16, u8),
    /// Write the threshold.
    SetThreshold(u8),
    /// Raise the threshold, if the level is above it.
    RaiseThreshold(u8),
    /// Signal a source.
    Pend(u16),
    /// Take the next dispatchable entry.
    Pop,
    /// Run the given operations under a threshold raised to the given
    /// priority, and put the previous threshold back.
    Run(u8, Seq<Step>),
}

impl Step {
    /// The operation names no source that a controller of `sources` sources lacks.
    pub open spec fn in_range(self, sources: nat) -> bool
        decreases self,
    {
        match self {
            Step::SetPriority(id, _) => (id as nat) < sources,
            Step::Pend(id) => (id as nat) < sources,
            Step::Run(_, body) => forall|k: int|
                0 <= k < body.len() ==> (#[trigger] body[k]).in_range(sources),
            _ => true,
        }
    }

    /// The operation writes the threshold only to put back what it replaced:
    /// it is no write and no raise of the threshold, and if it runs a body,
    /// the body holds no such operation either.
    pub open spec fn keeps_threshold(self) -> bool
        decreases self,
    {
        match self {
            Step::SetThreshold(_) => false,
            Step::RaiseThreshold(_) => false,
            Step::Run(_, body) => forall|k: int| 0 <= k < body.len() ==> (#[trigger] body[k]).keeps_threshold(),
            _ => true,
        }
    }

    /// The controller after the operation.
    pub open spec fn apply(self, s: SlicView) -> SlicView
        decreases self,
    {
        match self {
            Step::SetPriority(id, priority) => s.set_priority(id, priority),
            Step::SetThreshold(threshold) => s.set_threshold(threshold),
            Step::RaiseThreshold(priority) => s.raise_threshold(priority).1,
            Step::Pend(id) => s.pend(id),
            Step::Pop => s.pop().1,
            Step::Run(priority, body) => restored_view(
                s,
                priority,
                apply_all(body, ceiling_view(s, priority)),
            ),
        }
    }
}

/// The controller after the operations `steps`, in order.
pub open spec fn apply_all(steps: Seq<Step>, s: SlicView) -> SlicView
    decreases steps,
{
    if steps.len() == 0 {
        s
    } else {
        steps.last().apply(apply_all(steps.drop_last(), s))
    }
}

/// The controller of `sources` sources after the operations `steps`, in
/// order, on a fresh controller.
pub open spec fn state_after(sources: nat, steps: Seq<Step>) -> SlicView {
    apply_all(steps, SlicView::init(sources))
}

/// A fresh controller upholds the invariant.
pub proof fn lemma_init_wf(sources: nat)
    requires
        sources <= QUEUE_CAPACITY,
    ensures
        SlicView::init(sources).wf(),
        SlicView::init(sources).sources() == sources,
{
    lemma_count_true_none(SlicView::init(sources).pending);
}

/// Every operation keeps the invariant.
pub proof fn lemma_step_keeps_wf(s: SlicView, step: Step)
    requires
        s.wf(),
        step.in_range(s.sources()),
    ensures
        step.apply(s).wf(),
        step.apply(s).sources() == s.sources(),
    decreases step,
{
    match step {
        Step::SetPriority(id, priority) => {
            lemma_same_queue_keeps_wf(s, s.set_priority(id, priority));
        },
        Step::SetThreshold(threshold) => {
            lemma_same_queue_keeps_wf(s, s.set_threshold(threshold));
        },
        Step::RaiseThreshold(priority) => {
            lemma_same_queue_keeps_wf(s, s.raise_threshold(priority).1);
        },
        Step::Pend(id) => {
            lemma_pend_keeps_wf(s, id);
        },
        Step::Pop => {
            lemma_pop_keeps_wf(s);
        },
        Step::Run(priority, body) => {
            let entered = ceiling_view(s, priority);
            lemma_same_queue_keeps_wf(s, entered);
            lemma_steps_keep_wf(entered, body);
            let left = apply_all(body, entered);
            lemma_same_queue_keeps_wf(left, restored_view(s, priority, left));
        },
    }
}

/// Every sequence of operations keeps the invariant.
pub proof fn lemma_steps_keep_wf(s: SlicView, steps: Seq<Step>)
    requires
        s.wf(),
        forall|k: int| 0 <= k < steps.len() ==> (#[trigger] steps[k]).in_range(s.sources()),
    ensures
        apply_all(steps, s).wf(),
        apply_all(steps, s).sources() == s.sources(),
    decreases steps,
{
    if steps.len() > 0 {
        let before = steps.drop_last();
        assert forall|k: int| 0 <= k < before.len() implies (#[trigger] before[k]).in_range(
            s.sources(),
        ) by {
            assert(before[k] == steps[k]);
        }
        lemma_steps_keep_wf(s, before);
        assert(steps.last() == steps[steps.len() - 1]);
        lemma_step_keeps_wf(apply_all(before, s), steps.last());
    }
}

/// Whatever operations a controller has gone through, it upholds its
/// invariant; in particular the number of pending sources is the length of
/// the ready queue.
pub proof fn theorem_reachable_states(sources: nat, steps: Seq<Step>)
    requires
        sources <= QUEUE_CAPACITY,
        forall|k: int| 0 <= k < steps.len() ==> (#[trigger] steps[k]).in_range(sources),
    ensures
        state_after(sources, steps).wf(),
        state_after(sources, steps).sources() == sources,
        count_true(state_after(sources, steps).pending) == state_after(sources, steps).queue.len(),
{
    lemma_init_wf(sources);
    lemma_steps_keep_wf(SlicView::init(sources), steps);
}

/// An operation that writes the threshold only to put back what it replaced
/// leaves the threshold as it finds it. So does running a body of such
/// operations under a raised threshold, however deep the bodies nest and
/// however many sources they signal.
pub proof fn theorem_run_restores_threshold(s: SlicView, step: Step)
    requires
        step.keeps_threshold(),
    ensures
        step.apply(s).threshold == s.threshold,
    decreases step,
{
    match step {
        Step::Run(priority, body) => {
            lemma_body_restores_threshold(ceiling_view(s, priority), body);
        },
        _ => {},
    }
}

/// A sequence of operations that each leave the threshold as they find it
/// leaves the threshold as it finds it.
pub proof fn lemma_body_restores_threshold(s: SlicView, steps: Seq<Step>)
    requires
        forall|k: int| 0 <= k < steps.len() ==> (#[trigger] steps[k]).keeps_threshold(),
    ensures
        apply_all(steps, s).threshold == s.threshold,
    decreases steps,
{
    if steps.len() > 0 {
        let before = steps.drop_last();
        assert forall|k: int| 0 <= k < before.len() implies (#[trigger] before[k]).keeps_threshold() by {
            assert(before[k] == steps[k]);
        }
        lemma_body_restores_threshold(s, before);
        assert(steps.last() == steps[steps.len() - 1]);
        theorem_run_restores_threshold(apply_all(before, s), steps.last());
    }
}

/// Running a body under a priority above the threshold puts the threshold
/// back whatever the body does.
pub proof fn theorem_raised_run_restores_threshold(s: SlicView, priority: u8, body: Seq<Step>)
    requires
        priority > s.threshold,
    ensures
        Step::Run(priority, body).apply(s).threshold == s.threshold,
{
}

/// The controller after entries have been taken out `n` times in a row.
pub open spec fn after_pops(s: SlicView, n: nat) -> SlicView
    decreases n,
{
    if n == 0 {
        s
    } else {
        after_pops(s, (n - 1) as nat).pop().1
    }
}

/// Assigning a priority to a source never shows in what is taken out, however
/// many entries are taken out afterwards: each of them is the entry that
/// would have been taken out without the assignment, with the priority it
/// was queued with.
pub proof fn theorem_priority_change_never_shows(s: SlicView, id: u16, priority: u8, n: nat)
    requires
        (id as int) < s.sources(),
    ensures
        after_pops(s, n).sources() == s.sources(),
        after_pops(s.set_priority(id, priority), n) == after_pops(s, n).set_priority(id, priority),
        after_pops(s.set_priority(id, priority), n).pop().0 == after_pops(s, n).pop().0,
    decreases n,
{
    if n > 0 {
        theorem_priority_change_never_shows(s, id, priority, (n - 1) as nat);
        theorem_priority_change_keeps_entries(after_pops(s, (n - 1) as nat), id, priority);
    }
    theorem_priority_change_keeps_entries(after_pops(s, n), id, priority);
}

} // verus!
