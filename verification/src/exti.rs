//! The bridge from hardware interrupt lines to software sources.
//!
//! Some lines of the external interrupt controller are bound to a source of
//! the software controller. When such a line is claimed, its hardware
//! condition is cleared and the source is signalled; the handler then runs
//! from the software trap, under the software priorities. Any other line
//! goes to the handler registered for the line itself.

use crate::api::{pend_number, set_priority_of, set_threshold, Runtime};
use crate::bridge::TrapBridge;
use crate::config::ConfigError;
use vstd::prelude::*;

verus! {

/// The external interrupt controller, by what it can do.
pub trait ExternalController {
    /// Highest priority level the controller knows.
    const MAX_PRIORITY_NUMBER: u8;

    /// Claims the pending line of the highest priority, if any line is pending.
    fn claim(&mut self) -> Option<u16>;

    /// Tells the controller that a claimed line has been served.
    fn complete(&mut self, line: u16);

    /// Lets a line interrupt.
    fn enable(&mut self, line: u16);

    /// Sets the priority of a line.
    fn set_priority(&mut self, line: u16, level: u8)
        requires
            level <= Self::MAX_PRIORITY_NUMBER,
    ;

    /// Sets the threshold below which lines are held back.
    fn set_threshold(&mut self, level: u8)
        requires
            level <= Self::MAX_PRIORITY_NUMBER,
    ;
}

/// The highest level not above `priority` that a controller with levels up
/// to `max` knows: `priority` itself, or `max` if `priority` exceeds it.
pub open spec fn saturated(priority: u8, max: u8) -> u8 {
    if priority > max {
        max
    } else {
        priority
    }
}

/// Converts a priority to a level of a controller with levels up to `max`:
/// to the highest level, if the priority is above it.
pub fn saturated_priority(priority: u8, max: u8) -> (level: u8)
    ensures
        level == saturated(priority, max),
{
    if priority > max {
        max
    } else {
        priority
    }
}

/// Sets the threshold of the external controller, to its highest level if
/// `threshold` is above that. Returns the level that was set.
pub fn exti_set_threshold<E: ExternalController>(controller: &mut E, threshold: u8) -> (level: u8)
    ensures
        level == saturated(threshold, E::MAX_PRIORITY_NUMBER),
        exists|c: &mut E|
            *c == *old(controller) && #[trigger] call_ensures(E::set_threshold, (c, level), ())
                && *final(controller) == *final(c),
{
    let level = saturated_priority(threshold, E::MAX_PRIORITY_NUMBER);
    controller.set_threshold(level);
    level
}

/// Enables a line of the external controller and then sets its priority, to
/// the highest level if `priority` is above that. Returns the level that
/// was set.
pub fn exti_set_priority<E: ExternalController>(controller: &mut E, line: u16, priority: u8) -> (level:
    u8)
    ensures
        level == saturated(priority, E::MAX_PRIORITY_NUMBER),
        exists|c: &mut E, d: &mut E|
            {
                &&& *c == *old(controller)
                &&& #[trigger] call_ensures(E::enable, (c, line), ())
                &&& *d == *final(c)
                &&& #[trigger] call_ensures(E::set_priority, (d, line, level), ())
                &&& *final(controller) == *final(d)
            },
{
    let level = saturated_priority(priority, E::MAX_PRIORITY_NUMBER);
    controller.enable(line);
    controller.set_priority(line, level);
    level
}

/// What is wrong with the `k`-th binding of `pairs`, if anything: it names a
/// source that a controller of `sources` sources does not have, or it names
/// a line or a source that an earlier binding names.
pub open spec fn binding_fault(pairs: Seq<(u16, u16)>, sources: nat, k: int) -> Option<ConfigError> {
    if pairs[k].1 >= sources {
        Some(ConfigError::InvalidIdentifier)
    } else if exists|j: int| 0 <= j < k && same_line_or_source(pairs[j], pairs[k]) {
        Some(ConfigError::DuplicateIdentifier)
    } else {
        None
    }
}

/// Two bindings name the same line or the same source.
pub open spec fn same_line_or_source(a: (u16, u16), b: (u16, u16)) -> bool {
    a.0 == b.0 || a.1 == b.1
}

/// The bindings `(line, source)` of hardware lines to software sources: no
/// line and no source occurs twice.
pub struct Bindings<const M: usize> {
    pairs: [(u16, u16); M],
}

impl<const M: usize> View for Bindings<M> {
    type V = Seq<(u16, u16)>;

    closed spec fn view(&self) -> Seq<(u16, u16)> {
        self.pairs@
    }
}

impl<const M: usize> Bindings<M> {
    /// No line and no source is bound twice.
    pub open spec fn wf(&self) -> bool {
        &&& self@.len() == M
        &&& forall|j: int, k: int|
            0 <= j < k < self@.len() ==> !same_line_or_source(#[trigger] self@[j], #[trigger] self@[k])
    }

    /// Every bound source is one of the first `sources` sources.
    pub open spec fn in_range(&self, sources: nat) -> bool {
        forall|k: int| 0 <= k < self@.len() ==> (#[trigger] self@[k]).1 < sources
    }

    /// Line `line` is bound to source `id`.
    pub open spec fn binds(&self, line: u16, id: u16) -> bool {
        exists|k: int| 0 <= k < self@.len() && #[trigger] self@[k] == (line, id)
    }

    /// The source that `line` is bound to, if it is bound.
    pub open spec fn source_of(&self, line: u16) -> Option<u16> {
        if exists|id: u16| self.binds(line, id) {
            Some(choose|id: u16| self.binds(line, id))
        } else {
            None
        }
    }

    /// The line that source `id` is bound to, if it is bound.
    pub open spec fn line_of(&self, id: u16) -> Option<u16> {
        if exists|line: u16| self.binds(line, id) {
            Some(choose|line: u16| self.binds(line, id))
        } else {
            None
        }
    }

    /// Takes the bindings `pairs` for a controller of `sources` sources, if
    /// they are sound. Otherwise reports what is wrong with the first
    /// binding that something is wrong with.
    pub fn new(pairs: [(u16, u16); M], sources: usize) -> (bindings: Result<Self, ConfigError>)
        ensures
            match bindings {
                Ok(b) => b@ == pairs@ && b.wf() && b.in_range(sources as nat) && forall|k: int|
                    0 <= k < M ==> binding_fault(pairs@, sources as nat, k) is None,
                Err(fault) => exists|k: int|
                    0 <= k < M && binding_fault(pairs@, sources as nat, k) == Some(fault) && forall|j: int|
                        0 <= j < k ==> binding_fault(pairs@, sources as nat, j) is None,
            },
    {
        let mut k: usize = 0;
        while k < M
            invariant
                0 <= k <= M,
                pairs@.len() == M,
                forall|i: int| 0 <= i < k ==> binding_fault(pairs@, sources as nat, i) is None,
            decreases M - k,
        {
            if pairs[k].1 as usize >= sources {
                assert(binding_fault(pairs@, sources as nat, k as int) == Some(ConfigError::InvalidIdentifier));
                return Err(ConfigError::InvalidIdentifier);
            }
            let mut j: usize = 0;
            while j < k
                invariant
                    0 <= j <= k < M,
                    pairs@.len() == M,
                    pairs@[k as int].1 < sources,
                    forall|i: int| 0 <= i < k ==> binding_fault(pairs@, sources as nat, i) is None,
                    forall|i: int| 0 <= i < j ==> !same_line_or_source(pairs@[i], pairs@[k as int]),
                decreases k - j,
            {
                if pairs[j].0 == pairs[k].0 || pairs[j].1 == pairs[k].1 {
                    assert(same_line_or_source(pairs@[j as int], pairs@[k as int]));
                    assert(binding_fault(pairs@, sources as nat, k as int) == Some(
                        ConfigError::DuplicateIdentifier,
                    ));
                    return Err(ConfigError::DuplicateIdentifier);
                }
                j = j + 1;
            }
            assert(binding_fault(pairs@, sources as nat, k as int) is None);
            k = k + 1;
        }
        let bindings = Bindings { pairs };
        proof {
            assert forall|j: int, k: int| 0 <= j < k < bindings@.len() implies !same_line_or_source(
                #[trigger] bindings@[j],
                #[trigger] bindings@[k],
            ) by {
                assert(binding_fault(pairs@, sources as nat, k) is None);
            }
            assert forall|k: int| 0 <= k < bindings@.len() implies (#[trigger] bindings@[k]).1
                < sources as nat by {
                assert(binding_fault(pairs@, sources as nat, k) is None);
            }
        }
        Ok(bindings)
    }

    /// The source that a hardware line is bound to, if it is bound.
    pub fn source_bound_to(&self, line: u16) -> (source: Option<u16>)
        requires
            self.wf(),
        ensures
            source == self.source_of(line),
            source is Some ==> self.binds(line, source->0),
    {
        let mut k: usize = 0;
        while k < M
            invariant
                0 <= k <= M,
                self.wf(),
                forall|i: int| 0 <= i < k ==> (#[trigger] self@[i]).0 != line,
            decreases M - k,
        {
            if self.pairs[k].0 == line {
                let id = self.pairs[k].1;
                proof {
                    assert(self@[k as int] == (line, id));
                    assert(self.binds(line, id));
                    let chosen = choose|id: u16| self.binds(line, id);
                    let at = choose|i: int| 0 <= i < self@.len() && #[trigger] self@[i] == (line, chosen);
                    if at < k as int {
                        assert(same_line_or_source(self@[at], self@[k as int]));
                    } else if at > k as int {
                        assert(same_line_or_source(self@[k as int], self@[at]));
                    }
                }
                return Some(id);
            }
            k = k + 1;
        }
        proof {
            assert forall|id: u16| !self.binds(line, id) by {
                if self.binds(line, id) {
                    let at = choose|i: int| 0 <= i < self@.len() && #[trigger] self@[i] == (line, id);
                    assert(self@[at].0 == line);
                }
            }
        }
        None
    }
}

impl<const M: usize> Bindings<M> {
    /// Whether every bound source is one of the first `sources` sources.
    pub fn serves(&self, sources: usize) -> (fits: bool)
        ensures
            fits == self.in_range(sources as nat),
    {
        let mut k: usize = 0;
        while k < M
            invariant
                0 <= k <= M,
                self@.len() == M,
                forall|i: int| 0 <= i < k ==> (#[trigger] self@[i]).1 < sources,
            decreases M - k,
        {
            if self.pairs[k].1 as usize >= sources {
                assert(!(self@[k as int].1 < sources));
                return false;
            }
            k = k + 1;
        }
        true
    }

    /// The hardware line that a source is bound to, if it is bound.
    pub fn line_bound_to(&self, id: u16) -> (line: Option<u16>)
        requires
            self.wf(),
        ensures
            line == self.line_of(id),
            line is Some ==> self.binds(line->0, id),
    {
        let mut k: usize = 0;
        while k < M
            invariant
                0 <= k <= M,
                self.wf(),
                forall|i: int| 0 <= i < k ==> (#[trigger] self@[i]).1 != id,
            decreases M - k,
        {
            if self.pairs[k].1 == id {
                let line = self.pairs[k].0;
                proof {
                    assert(self@[k as int] == (line, id));
                    assert(self.binds(line, id));
                    let chosen = choose|line: u16| self.binds(line, id);
                    let at = choose|i: int| 0 <= i < self@.len() && #[trigger] self@[i] == (chosen, id);
                    if at < k as int {
                        assert(same_line_or_source(self@[at], self@[k as int]));
                    } else if at > k as int {
                        assert(same_line_or_source(self@[k as int], self@[at]));
                    }
                }
                return Some(line);
            }
            k = k + 1;
        }
        proof {
            assert forall|line: u16| !self.binds(line, id) by {
                if self.binds(line, id) {
                    let at = choose|i: int| 0 <= i < self@.len() && #[trigger] self@[i] == (line, id);
                    assert(self@[at].1 == id);
                }
            }
        }
        None
    }
}

/// Sets the threshold of the external controller and of the software
/// controller, so that both hold back the same levels.
pub fn slic_set_threshold<B: TrapBridge, E: ExternalController, const N: usize>(
    rt: &mut Runtime<B, N>,
    controller: &mut E,
    threshold: u8,
)
    requires
        old(rt).slic().wf(),
    ensures
        final(rt).wf(),
        final(rt).slic()@ == old(rt).slic()@.set_threshold(threshold),
        final(rt).requested() == (old(rt).requested() || final(rt).slic()@.ready()),
        final(rt).slic()@.ready() ==> exists|b: &mut B|
            *b == *old(rt).bridge() && #[trigger] call_ensures(B::request_trap, (b,), ())
                && *final(rt).bridge() == *final(b),
        !final(rt).slic()@.ready() ==> final(rt).bridge() == old(rt).bridge(),
        exists|c: &mut E|
            *c == *old(controller) && #[trigger] call_ensures(
                E::set_threshold,
                (c, saturated(threshold, E::MAX_PRIORITY_NUMBER)),
                (),
            ) && *final(controller) == *final(c),
{
    let _ = exti_set_threshold(controller, threshold);
    set_threshold(rt, threshold);
}

/// Sets the priority of a source, and, if the source is bound to a hardware
/// line, enables that line in the external controller with the same priority.
pub fn slic_set_priority<B: TrapBridge, E: ExternalController, const N: usize, const M: usize>(
    rt: &mut Runtime<B, N>,
    controller: &mut E,
    bindings: &Bindings<M>,
    id: u16,
    priority: u8,
)
    requires
        old(rt).slic().wf(),
        bindings.wf(),
        (id as int) < N,
    ensures
        final(rt).slic().wf(),
        final(rt).armed() == old(rt).armed(),
        final(rt).slic()@ == old(rt).slic()@.set_priority(id, priority),
        final(rt).bridge() == old(rt).bridge(),
        final(rt).requested() == old(rt).requested(),
        match bindings.line_of(id) {
            Some(line) => exists|c: &mut E, d: &mut E|
                {
                    &&& *c == *old(controller)
                    &&& #[trigger] call_ensures(E::enable, (c, line), ())
                    &&& *d == *final(c)
                    &&& #[trigger] call_ensures(E::set_priority, (d, line, saturated(priority, E::MAX_PRIORITY_NUMBER)), ())
                    &&& *final(controller) == *final(d)
                },
            None => *final(controller) == *old(controller),
        },
{
    set_priority_of(rt, id, priority);
    match bindings.line_bound_to(id) {
        Some(line) => {
            let _ = exti_set_priority(controller, line, priority);
        },
        None => {},
    }
}

/// Serves a claimed hardware line.
///
/// If the line is bound to a source, `clear` is run on that source, to
/// silence the hardware condition, and then the source is signalled: in this
/// order, because signalling may lead straight into the dispatcher. `clear`
/// is shown the controller, which is still as it was when the line was
/// claimed. The condition is cleared on every claim, whether or not
/// signalling finds the source already pending. A line that is not bound
/// goes to `pass_through`, and the controller is left alone.
pub fn serve_claim<
    B: TrapBridge,
    C: FnOnce(u16, &Runtime<B, N>),
    P: FnOnce(u16),
    const N: usize,
    const M: usize,
>(rt: &mut Runtime<B, N>, bindings: &Bindings<M>, line: u16, clear: C, pass_through: P)
    requires
        old(rt).slic().wf(),
        bindings.wf(),
        bindings.in_range(N as nat),
        forall|id: u16| bindings.binds(line, id) ==> call_requires(clear, (id, &*old(rt))),
        bindings.source_of(line) is None ==> call_requires(pass_through, (line,)),
    ensures
        match bindings.source_of(line) {
            Some(id) => {
                &&& call_ensures(clear, (id, &*old(rt)), ())
                &&& final(rt).wf()
                &&& final(rt).slic()@ == old(rt).slic()@.pend(id)
                &&& final(rt).requested() == (old(rt).requested() || final(rt).slic()@.ready())
                &&& final(rt).slic()@.ready() ==> exists|b: &mut B|
                    *b == *old(rt).bridge() && #[trigger] call_ensures(B::request_trap, (b,), ())
                        && *final(rt).bridge() == *final(b)
                &&& !final(rt).slic()@.ready() ==> final(rt).bridge() == old(rt).bridge()
            },
            None => call_ensures(pass_through, (line,), ()) && *final(rt) == *old(rt),
        },
{
    match bindings.source_bound_to(line) {
        Some(id) => {
            clear(id, rt);
            proof {
                let at = choose|i: int| 0 <= i < bindings@.len() && #[trigger] bindings@[i] == (line, id);
                assert(bindings@[at].1 < N);
            }
            pend_number(rt, id);
        },
        None => {
            pass_through(line);
        },
    }
}

/// The entry for external interrupts: claims a line from the external
/// controller, serves it as [`serve_claim`] does (a bound line is cleared
/// and then signalled), and completes the claim last, whichever way the
/// line went. Returns what the controller's `claim` returned; with no line
/// pending nothing else happens.
pub fn external_interrupt<
    B: TrapBridge,
    E: ExternalController,
    C: FnOnce(u16, &Runtime<B, N>),
    P: FnOnce(u16),
    const N: usize,
    const M: usize,
>(
    rt: &mut Runtime<B, N>,
    controller: &mut E,
    bindings: &Bindings<M>,
    clear: C,
    pass_through: P,
) -> (claimed: Option<u16>)
    requires
        old(rt).slic().wf(),
        bindings.wf(),
        bindings.in_range(N as nat),
        forall|id: u16| call_requires(clear, (id, &*old(rt))),
        forall|line: u16| call_requires(pass_through, (line,)),
    ensures
        exists|x: &mut E|
            *x == *old(controller) && #[trigger] call_ensures(E::claim, (x,), claimed) && match claimed {
                Some(line) => exists|y: &mut E|
                    *y == *final(x) && #[trigger] call_ensures(E::complete, (y, line), ())
                        && *final(controller) == *final(y),
                None => *final(controller) == *final(x),
            },
        match claimed {
            Some(line) => match bindings.source_of(line) {
                Some(id) => {
                    &&& call_ensures(clear, (id, &*old(rt)), ())
                    &&& final(rt).wf()
                    &&& final(rt).slic()@ == old(rt).slic()@.pend(id)
                    &&& final(rt).requested() == (old(rt).requested() || final(rt).slic()@.ready())
                    &&& final(rt).slic()@.ready() ==> exists|b: &mut B|
                        *b == *old(rt).bridge() && #[trigger] call_ensures(B::request_trap, (b,), ())
                            && *final(rt).bridge() == *final(b)
                    &&& !final(rt).slic()@.ready() ==> final(rt).bridge() == old(rt).bridge()
                },
                None => call_ensures(pass_through, (line,), ()) && *final(rt) == *old(rt),
            },
            None => *final(rt) == *old(rt),
        },
{
    match controller.claim() {
        Some(line) => {
            serve_claim(rt, bindings, line, clear, pass_through);
            controller.complete(line);
            Some(line)
        },
        None => None,
    }
}

} // verus!
