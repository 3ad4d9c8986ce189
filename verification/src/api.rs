//! The operations that firmware calls: signalling sources, masking by
//! priority, running code under a priority ceiling, and dispatching the
//! pending sources from the trap.

use crate::bridge::TrapBridge;
use crate::number::InterruptNumber;
use crate::queue::{entry_le, QUEUE_CAPACITY};
use crate::slic::{lemma_pop_keeps_wf, theorem_priority_change_keeps_entries, SlicView, SLIC};
use vstd::prelude::*;

verus! {

/// A controller together with the bridge that raises its trap.
///
/// The two are kept together so that they cannot drift apart: the
/// controller changes only through the operations of this module, and each
/// of them asks the bridge for the trap when a source has become
/// dispatchable.
pub struct Runtime<B: TrapBridge, const N: usize> {
    /// The controller.
    slic: SLIC<N>,
    /// The bridge to the real trap.
    bridge: B,
    /// Whether the bridge has been asked for the trap since the trap was
    /// last acknowledged.
    requested: Ghost<bool>,
}

impl<B: TrapBridge, const N: usize> Runtime<B, N> {
    /// The controller.
    pub closed spec fn spec_slic(&self) -> &SLIC<N> {
        &self.slic
    }

    /// The bridge.
    pub closed spec fn spec_bridge(&self) -> &B {
        &self.bridge
    }

    /// Whether the bridge has been asked for the trap since the trap was
    /// last acknowledged.
    pub closed spec fn requested(&self) -> bool {
        self.requested@
    }

    /// Whenever a source can be dispatched, the trap has been requested.
    pub open spec fn armed(&self) -> bool {
        self.slic()@.ready() ==> self.requested()
    }

    /// The controller upholds its invariant and no dispatchable source waits
    /// without the trap having been requested.
    pub open spec fn wf(&self) -> bool {
        self.slic().wf() && self.armed()
    }

    /// A fresh controller on the given bridge.
    pub fn new(bridge: B) -> (rt: Self)
        requires
            N <= QUEUE_CAPACITY,
        ensures
            rt.wf(),
            rt.slic()@ == SlicView::init(N as nat),
            *rt.bridge() == bridge,
            !rt.requested(),
    {
        let rt = Runtime { slic: SLIC::new(), bridge, requested: Ghost(false) };
        proof {
            assert(!rt.slic@.ready());
        }
        rt
    }

    /// The controller, to look at.
    #[verifier::when_used_as_spec(spec_slic)]
    pub fn slic(&self) -> (slic: &SLIC<N>)
        ensures
            slic == self.slic(),
    {
        &self.slic
    }

    /// The bridge, to look at.
    #[verifier::when_used_as_spec(spec_bridge)]
    pub fn bridge(&self) -> (bridge: &B)
        ensures
            bridge == self.bridge(),
    {
        &self.bridge
    }
}

/// Requests the trap if a source can be dispatched.
fn rearm<B: TrapBridge, const N: usize>(rt: &mut Runtime<B, N>)
    requires
        old(rt).slic().wf(),
    ensures
        final(rt).wf(),
        final(rt).slic() == old(rt).slic(),
        final(rt).requested() == (old(rt).requested() || old(rt).slic()@.ready()),
        old(rt).slic()@.ready() ==> exists|b: &mut B|
            *b == *old(rt).bridge() && #[trigger] call_ensures(B::request_trap, (b,), ())
                && *final(rt).bridge() == *final(b),
        !old(rt).slic()@.ready() ==> final(rt).bridge() == old(rt).bridge(),
{
    if rt.slic.is_ready() {
        rt.bridge.request_trap();
        rt.requested = Ghost(true);
    }
}

/// Starts the controller: if a source can be dispatched, the bridge is
/// asked for the trap; if none can, the bridge is left alone.
pub fn enable<B: TrapBridge, const N: usize>(rt: &mut Runtime<B, N>)
    requires
        old(rt).slic().wf(),
    ensures
        final(rt).wf(),
        final(rt).slic() == old(rt).slic(),
        final(rt).requested() == (old(rt).requested() || old(rt).slic()@.ready()),
        old(rt).slic()@.ready() ==> exists|b: &mut B|
            *b == *old(rt).bridge() && #[trigger] call_ensures(B::request_trap, (b,), ())
                && *final(rt).bridge() == *final(b),
        !old(rt).slic()@.ready() ==> final(rt).bridge() == old(rt).bridge(),
{
    rearm(rt);
}

/// Stops the controller: the bridge is told to withdraw the trap request.
/// What is pending stays pending.
pub fn disable<B: TrapBridge, const N: usize>(rt: &mut Runtime<B, N>)
    ensures
        !final(rt).requested(),
        final(rt).slic() == old(rt).slic(),
        exists|b: &mut B|
            *b == *old(rt).bridge() && #[trigger] call_ensures(B::acknowledge_trap, (b,), ())
                && *final(rt).bridge() == *final(b),
{
    rt.bridge.acknowledge_trap();
    rt.requested = Ghost(false);
}

/// Returns the current priority threshold.
pub fn get_threshold<B: TrapBridge, const N: usize>(rt: &Runtime<B, N>) -> (threshold: u8)
    ensures
        threshold == rt.slic()@.threshold,
{
    rt.slic.get_threshold()
}

/// Sets the priority threshold, and asks the bridge for the trap if a
/// source can be dispatched under the new threshold.
///
/// Setting the threshold lower than it is may let a source in that a
/// section in progress relies on keeping out.
pub fn set_threshold<B: TrapBridge, const N: usize>(rt: &mut Runtime<B, N>, priority: u8)
    requires
        old(rt).slic().wf(),
    ensures
        final(rt).wf(),
        final(rt).slic()@ == old(rt).slic()@.set_threshold(priority),
        final(rt).requested() == (old(rt).requested() || final(rt).slic()@.ready()),
        final(rt).slic()@.ready() ==> exists|b: &mut B|
            *b == *old(rt).bridge() && #[trigger] call_ensures(B::request_trap, (b,), ())
                && *final(rt).bridge() == *final(b),
        !final(rt).slic()@.ready() ==> final(rt).bridge() == old(rt).bridge(),
{
    rt.slic.set_threshold(priority);
    rearm(rt);
}

/// Raises the priority threshold to a strictly higher level and returns the
/// level it replaces; any other level is refused and changes nothing in the
/// controller. Either way the bridge is asked for the trap if a source can
/// be dispatched afterwards.
pub fn raise_threshold<B: TrapBridge, const N: usize>(rt: &mut Runtime<B, N>, priority: u8) -> (raised:
    Result<u8, ()>)
    requires
        old(rt).slic().wf(),
    ensures
        final(rt).wf(),
        (raised, final(rt).slic()@) == old(rt).slic()@.raise_threshold(priority),
        raised is Ok <==> priority > old(rt).slic()@.threshold,
        final(rt).requested() == (old(rt).requested() || final(rt).slic()@.ready()),
        final(rt).slic()@.ready() ==> exists|b: &mut B|
            *b == *old(rt).bridge() && #[trigger] call_ensures(B::request_trap, (b,), ())
                && *final(rt).bridge() == *final(b),
        !final(rt).slic()@.ready() ==> final(rt).bridge() == old(rt).bridge(),
{
    let raised = rt.slic.raise_threshold(priority);
    rearm(rt);
    raised
}

/// Puts back the threshold that [`raise_threshold`] replaced: after a raise
/// that succeeded, the level it returned is written and the bridge is asked
/// for the trap if a source can be dispatched under it; after a raise that
/// was refused, nothing is done.
pub fn restore_threshold<B: TrapBridge, const N: usize>(rt: &mut Runtime<B, N>, previous: Result<u8, ()>)
    requires
        old(rt).slic().wf(),
    ensures
        final(rt).slic().wf(),
        match previous {
            Ok(level) => {
                &&& final(rt).wf()
                &&& final(rt).slic()@ == old(rt).slic()@.set_threshold(level)
                &&& final(rt).requested() == (old(rt).requested() || final(rt).slic()@.ready())
                &&& final(rt).slic()@.ready() ==> exists|b: &mut B|
                    *b == *old(rt).bridge() && #[trigger] call_ensures(B::request_trap, (b,), ())
                        && *final(rt).bridge() == *final(b)
                &&& !final(rt).slic()@.ready() ==> final(rt).bridge() == old(rt).bridge()
            },
            Err(_) => *final(rt) == *old(rt),
        },
{
    match previous {
        Ok(level) => {
            set_threshold(rt, level);
        },
        Err(_) => {},
    }
}

/// Sets the priority of the source with number `interrupt`.
pub fn set_priority_of<B: TrapBridge, const N: usize>(rt: &mut Runtime<B, N>, interrupt: u16, priority: u8)
    requires
        old(rt).slic().wf(),
        (interrupt as int) < N,
    ensures
        final(rt).slic().wf(),
        final(rt).armed() == old(rt).armed(),
        final(rt).slic()@ == old(rt).slic()@.set_priority(interrupt, priority),
        final(rt).bridge() == old(rt).bridge(),
        final(rt).requested() == old(rt).requested(),
{
    rt.slic.set_priority(interrupt, priority);
    proof {
        assert(rt.slic@.ready() == old(rt).slic()@.ready());
    }
}

/// Signals the source with number `interrupt`, and asks the bridge for the
/// trap if a source can be dispatched afterwards.
pub fn pend_number<B: TrapBridge, const N: usize>(rt: &mut Runtime<B, N>, interrupt: u16)
    requires
        old(rt).slic().wf(),
        (interrupt as int) < N,
    ensures
        final(rt).wf(),
        final(rt).slic()@ == old(rt).slic()@.pend(interrupt),
        final(rt).requested() == (old(rt).requested() || final(rt).slic()@.ready()),
        final(rt).slic()@.ready() ==> exists|b: &mut B|
            *b == *old(rt).bridge() && #[trigger] call_ensures(B::request_trap, (b,), ())
                && *final(rt).bridge() == *final(b),
        !final(rt).slic()@.ready() ==> final(rt).bridge() == old(rt).bridge(),
{
    rt.slic.pend(interrupt);
    rearm(rt);
}

/// Returns the priority of a source.
pub fn get_priority<B: TrapBridge, I: InterruptNumber, const N: usize>(
    rt: &Runtime<B, N>,
    interrupt: I,
) -> (priority: u8)
    requires
        (interrupt.index() as int) < N,
    ensures
        priority == rt.slic()@.priorities[interrupt.index() as int],
{
    rt.slic.get_priority(interrupt.number())
}

/// Sets the priority of a source. A source already queued is dispatched with
/// the priority it was queued with.
pub fn set_priority<B: TrapBridge, I: InterruptNumber, const N: usize>(
    rt: &mut Runtime<B, N>,
    interrupt: I,
    priority: u8,
)
    requires
        old(rt).slic().wf(),
        (interrupt.index() as int) < N,
    ensures
        final(rt).slic().wf(),
        final(rt).armed() == old(rt).armed(),
        final(rt).slic()@ == old(rt).slic()@.set_priority(interrupt.index(), priority),
        final(rt).bridge() == old(rt).bridge(),
        final(rt).requested() == old(rt).requested(),
{
    set_priority_of(rt, interrupt.number(), priority);
}

/// Signals a source, and asks the bridge for the trap if a source can be
/// dispatched afterwards. Signalling a disabled source, or one already
/// pending, changes nothing in the controller.
pub fn pend<B: TrapBridge, I: InterruptNumber, const N: usize>(rt: &mut Runtime<B, N>, interrupt: I)
    requires
        old(rt).slic().wf(),
        (interrupt.index() as int) < N,
    ensures
        final(rt).wf(),
        final(rt).slic()@ == old(rt).slic()@.pend(interrupt.index()),
        final(rt).requested() == (old(rt).requested() || final(rt).slic()@.ready()),
        final(rt).slic()@.ready() ==> exists|b: &mut B|
            *b == *old(rt).bridge() && #[trigger] call_ensures(B::request_trap, (b,), ())
                && *final(rt).bridge() == *final(b),
        !final(rt).slic()@.ready() ==> final(rt).bridge() == old(rt).bridge(),
{
    pend_number(rt, interrupt.number());
}

/// The threshold under which the body of [`run`] or [`lock`] executes.
pub open spec fn ceiling_view(s: SlicView, priority: u8) -> SlicView {
    s.raise_threshold(priority).1
}

/// What [`run`] leaves of the controller that its body handed back: the
/// threshold held before the call if the call raised it, else the body's own.
pub open spec fn restored_view(before: SlicView, priority: u8, after_body: SlicView) -> SlicView {
    if priority > before.threshold {
        after_body.set_threshold(before.threshold)
    } else {
        after_body
    }
}

/// Runs `f` with the threshold raised to `priority`, then puts the previous
/// threshold back. Where `priority` does not exceed the threshold, `f` runs
/// under the threshold as it is.
///
/// The bridge is asked for the trap on the way in if a source can be
/// dispatched under the raised threshold, and on the way out if the
/// threshold was raised and a source can be dispatched under the one put
/// back.
///
/// A body that leaves the threshold as it finds it makes `run` do the same:
/// bodies that signal sources and call `run` themselves, to any depth, are of
/// that kind.
pub fn run<B: TrapBridge, F: FnOnce(&mut Runtime<B, N>), const N: usize>(
    rt: &mut Runtime<B, N>,
    priority: u8,
    f: F,
)
    requires
        old(rt).slic().wf(),
        forall|x: &mut Runtime<B, N>|
            x.wf() && x.slic()@ == ceiling_view(old(rt).slic()@, priority) ==> call_requires(f, (x,)),
        forall|x: &mut Runtime<B, N>| x.wf() && call_ensures(f, (x,), ()) ==> final(x).wf(),
    ensures
        final(rt).wf(),
        exists|x: &mut Runtime<B, N>|
            {
                &&& x.wf()
                &&& x.slic()@ == ceiling_view(old(rt).slic()@, priority)
                &&& x.slic()@.ready() ==> exists|b: &mut B|
                    *b == *old(rt).bridge() && #[trigger] call_ensures(B::request_trap, (b,), ())
                        && *x.bridge() == *final(b)
                &&& !x.slic()@.ready() ==> x.bridge() == old(rt).bridge()
                &&& #[trigger] call_ensures(f, (x,), ())
                &&& final(rt).slic()@ == restored_view(old(rt).slic()@, priority, final(x).slic()@)
                &&& priority > old(rt).slic()@.threshold && final(rt).slic()@.ready() ==> exists|b: &mut B|
                    *b == *final(x).bridge() && #[trigger] call_ensures(B::request_trap, (b,), ())
                        && *final(rt).bridge() == *final(b)
                &&& !(priority > old(rt).slic()@.threshold && final(rt).slic()@.ready()) ==> final(rt).bridge() == final(x).bridge()
            },
        (forall|x: &mut Runtime<B, N>| #[trigger]
            call_ensures(f, (x,), ()) ==> final(x).slic()@.threshold == x.slic()@.threshold)
            ==> final(rt).slic()@.threshold == old(rt).slic()@.threshold,
{
    let previous = raise_threshold(rt, priority);
    f(rt);
    restore_threshold(rt, previous);
}

/// Runs `f` on a shared resource with the threshold raised to the ceiling
/// of that resource, then puts the previous threshold back, and returns what
/// `f` returns.
///
/// The ceiling of a resource is the highest priority of any source that
/// touches it: while the threshold is there, none of them is dispatched, so
/// `f` has the resource to itself. `f` is handed the controller as well, so
/// that it can signal sources and lock further resources.
pub fn lock<B: TrapBridge, T, R, F: FnOnce(&mut Runtime<B, N>, &mut T) -> R, const N: usize>(
    rt: &mut Runtime<B, N>,
    resource: &mut T,
    ceiling: u8,
    f: F,
) -> (r: R)
    requires
        old(rt).slic().wf(),
        forall|x: &mut Runtime<B, N>, y: &mut T|
            x.wf() && x.slic()@ == ceiling_view(old(rt).slic()@, ceiling) && *y == *old(resource)
                ==> call_requires(f, (x, y)),
        forall|x: &mut Runtime<B, N>, y: &mut T, r: R|
            x.wf() && call_ensures(f, (x, y), r) ==> final(x).wf(),
    ensures
        final(rt).wf(),
        exists|x: &mut Runtime<B, N>, y: &mut T|
            {
                &&& x.wf()
                &&& x.slic()@ == ceiling_view(old(rt).slic()@, ceiling)
                &&& x.slic()@.threshold >= ceiling
                &&& x.slic()@.ready() ==> exists|b: &mut B|
                    *b == *old(rt).bridge() && #[trigger] call_ensures(B::request_trap, (b,), ())
                        && *x.bridge() == *final(b)
                &&& !x.slic()@.ready() ==> x.bridge() == old(rt).bridge()
                &&& *y == *old(resource)
                &&& #[trigger] call_ensures(f, (x, y), r)
                &&& *final(resource) == *final(y)
                &&& final(rt).slic()@ == restored_view(old(rt).slic()@, ceiling, final(x).slic()@)
                &&& ceiling > old(rt).slic()@.threshold && final(rt).slic()@.ready() ==> exists|b: &mut B|
                    *b == *final(x).bridge() && #[trigger] call_ensures(B::request_trap, (b,), ())
                        && *final(rt).bridge() == *final(b)
                &&& !(ceiling > old(rt).slic()@.threshold && final(rt).slic()@.ready()) ==> final(rt).bridge() == final(x).bridge()
            },
        (forall|x: &mut Runtime<B, N>, y: &mut T, r: R| #[trigger]
            call_ensures(f, (x, y), r) ==> final(x).slic()@.threshold == x.slic()@.threshold)
            ==> final(rt).slic()@.threshold == old(rt).slic()@.threshold,
{
    let previous = raise_threshold(rt, ceiling);
    let r = f(rt, resource);
    restore_threshold(rt, previous);
    r
}

/// The state in which [`dispatch`] hands the controller to the handler: the
/// dispatched entry has left the queue and the threshold stands at the
/// priority the entry was queued with.
pub open spec fn dispatched_view(s: SlicView) -> SlicView {
    s.pop().1.set_threshold(s.top().0)
}

/// Assigning a priority to a source that waits in the queue does not change
/// what the trap dispatches next, nor the threshold under which its handler
/// runs: that is the priority the entry was queued with, also when the
/// source has since been disabled.
pub proof fn theorem_dispatch_at_queued_priority(s: SlicView, id: u16, priority: u8)
    requires
        s.wf(),
        (id as int) < s.sources(),
        s.ready(),
    ensures
        s.set_priority(id, priority).ready(),
        s.set_priority(id, priority).top() == s.top(),
        dispatched_view(s.set_priority(id, priority)) == dispatched_view(s).set_priority(id, priority),
        dispatched_view(s.set_priority(id, priority)).threshold == s.top().0,
        s.queue.count(s.top()) > 0,
{
    theorem_priority_change_keeps_entries(s, id, priority);
    lemma_pop_keeps_wf(s);
    assert(dispatched_view(s.set_priority(id, priority)) =~= dispatched_view(s).set_priority(
        id,
        priority,
    ));
}

/// The first half of serving a trap: acknowledges the trap, before anything
/// else, and takes the dispatchable source of the highest priority, if there
/// is one, raising the threshold to the priority the source was queued with.
/// Returns the threshold that was replaced and the source to run; the caller
/// runs its handler and then writes that threshold back with
/// [`set_threshold`].
///
/// While the handler runs, nothing that was queued before can be dispatched:
/// only a source signalled meanwhile with a higher priority can.
pub fn next_dispatch<B: TrapBridge, const N: usize>(rt: &mut Runtime<B, N>) -> (next: Option<(u8, u16)>)
    requires
        old(rt).slic().wf(),
    ensures
        final(rt).wf(),
        !final(rt).slic()@.ready(),
        !final(rt).requested(),
        exists|b: &mut B|
            *b == *old(rt).bridge() && #[trigger] call_ensures(B::acknowledge_trap, (b,), ())
                && *final(rt).bridge() == *final(b),
        match next {
            Some((previous, interrupt)) => {
                &&& old(rt).slic()@.ready()
                &&& previous == old(rt).slic()@.threshold
                &&& interrupt == old(rt).slic()@.top().1
                &&& (interrupt as int) < N
                &&& final(rt).slic()@ == dispatched_view(old(rt).slic()@)
            },
            None => !old(rt).slic()@.ready() && final(rt).slic()@ == old(rt).slic()@,
        },
{
    rt.bridge.acknowledge_trap();
    rt.requested = Ghost(false);
    match rt.slic.pop() {
        Some((priority, interrupt)) => {
            proof {
                lemma_pop_keeps_wf(old(rt).slic()@);
            }
            let previous = rt.slic.get_threshold();
            rt.slic.set_threshold(priority);
            proof {
                assert forall|e: (u8, u16)| #[trigger] rt.slic@.queue.count(e) > 0 implies e.0
                    <= rt.slic@.threshold by {
                    assert(old(rt).slic()@.queue.count(e) > 0);
                    assert(entry_le(e, old(rt).slic()@.top()));
                }
            }
            Some((previous, interrupt))
        },
        None => None,
    }
}

/// Serves one trap: acknowledges it, takes the dispatchable source of the
/// highest priority, if there is one, and runs `handler` on it with the
/// threshold at the priority the source was queued with. When the handler
/// returns, the threshold is what it was on entry, and the bridge is asked
/// for the trap again if a source still waits above it. Returns whether a
/// handler ran.
pub fn dispatch<B: TrapBridge, H: FnOnce(u16, &mut Runtime<B, N>), const N: usize>(
    rt: &mut Runtime<B, N>,
    handler: H,
) -> (ran: bool)
    requires
        old(rt).slic().wf(),
        forall|x: &mut Runtime<B, N>|
            old(rt).slic()@.ready() && x.wf() && x.slic()@ == dispatched_view(old(rt).slic()@)
                ==> call_requires(handler, (old(rt).slic()@.top().1, x)),
        forall|id: u16, x: &mut Runtime<B, N>|
            x.wf() && call_ensures(handler, (id, x), ()) ==> final(x).slic().wf(),
    ensures
        final(rt).wf(),
        ran == old(rt).slic()@.ready(),
        !ran ==> final(rt).slic()@ == old(rt).slic()@ && exists|b: &mut B|
            *b == *old(rt).bridge() && #[trigger] call_ensures(B::acknowledge_trap, (b,), ())
                && *final(rt).bridge() == *final(b),
        ran ==> exists|x: &mut Runtime<B, N>|
            {
                &&& x.wf()
                &&& x.slic()@ == dispatched_view(old(rt).slic()@)
                &&& exists|b: &mut B|
                    *b == *old(rt).bridge() && #[trigger] call_ensures(B::acknowledge_trap, (b,), ())
                        && *x.bridge() == *final(b)
                &&& #[trigger] call_ensures(handler, (old(rt).slic()@.top().1, x), ())
                &&& final(rt).slic()@ == final(x).slic()@.set_threshold(old(rt).slic()@.threshold)
                &&& final(rt).slic()@.ready() ==> exists|b: &mut B|
                    *b == *final(x).bridge() && #[trigger] call_ensures(B::request_trap, (b,), ())
                        && *final(rt).bridge() == *final(b)
                &&& !final(rt).slic()@.ready() ==> final(rt).bridge() == final(x).bridge()
            },
{
    match next_dispatch(rt) {
        Some((previous, interrupt)) => {
            handler(interrupt, rt);
            set_threshold(rt, previous);
            true
        },
        None => false,
    }
}

} // verus!
