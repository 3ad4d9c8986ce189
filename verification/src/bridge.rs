//! The trap bridge: how the controller asks the hardware for a real trap and
//! how the dispatcher tells the hardware that the trap has been taken.

use vstd::prelude::*;

verus! {

/// The mechanism that raises the one real trap behind all software sources.
///
/// A register-backed bridge sets and clears a pending bit; a bridge built on
/// a trapping instruction traps on request and, to acknowledge, moves the
/// return address behind that instruction.
pub trait TrapBridge {
    /// Requests the real trap. Asking again while a request stands changes nothing.
    fn request_trap(&mut self);

    /// Withdraws the request. The dispatcher does this on entry, before any
    /// handler runs, so that a source signalled meanwhile can ask anew.
    fn acknowledge_trap(&mut self);
}

/// The pending bit of a software-interrupt register, as a value.
#[derive(Clone, Copy, Debug, PartialEq, Eq, Structural)]
pub struct PendingBit {
    /// Whether the bit is set.
    pub set: bool,
}

impl PendingBit {
    /// A cleared bit.
    pub fn new() -> (bit: Self)
        ensures
            !bit.set,
    {
        PendingBit { set: false }
    }

    /// Whether the bit is set.
    pub fn is_set(&self) -> (set: bool)
        ensures
            set == self.set,
    {
        self.set
    }
}

impl TrapBridge for PendingBit {
    fn request_trap(&mut self)
        ensures
            final(self).set,
    {
        self.set = true;
    }

    fn acknowledge_trap(&mut self)
        ensures
            !final(self).set,
    {
        self.set = false;
    }
}

/// Width in bytes of the instruction that traps into the environment.
pub const TRAP_INSTRUCTION_BYTES: usize = 4;

/// Where execution resumes after a trap that an instruction at `trap_pc`
/// asked for: at the instruction behind it. Returning to `trap_pc` itself
/// would trap again without end.
pub fn resume_after_trap(trap_pc: usize) -> (resume_pc: usize)
    requires
        trap_pc + TRAP_INSTRUCTION_BYTES <= usize::MAX,
    ensures
        resume_pc == trap_pc + TRAP_INSTRUCTION_BYTES,
{
    trap_pc + TRAP_INSTRUCTION_BYTES
}

} // verus!
