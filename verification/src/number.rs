//! Interrupt sources as dense numbers.

use vstd::prelude::*;

verus! {

/// An enumeration of software interrupt sources.
///
/// Each source stands for one number, the same at every call, no two sources
/// for the same number, and none above `MAX_INTERRUPT_NUMBER`. A controller
/// indexes its tables by these numbers.
pub trait InterruptNumber: Copy {
    /// Highest number assigned to an interrupt source.
    const MAX_INTERRUPT_NUMBER: u16;

    /// The number that a source stands for.
    spec fn index(self) -> u16;

    /// Two sources with one number are one source.
    proof fn index_is_injective(a: Self, b: Self)
        requires
            a.index() == b.index(),
        ensures
            a == b,
    ;

    /// Converts an interrupt source to its number.
    fn number(self) -> (n: u16)
        ensures
            n == self.index(),
            n <= Self::MAX_INTERRUPT_NUMBER,
    ;

    /// Converts a number to the interrupt source it stands for. A number
    /// above `MAX_INTERRUPT_NUMBER` stands for none and is handed back.
    fn from_number(value: u16) -> (source: Result<Self, u16>)
        ensures
            value <= Self::MAX_INTERRUPT_NUMBER ==> source is Ok && source->Ok_0.index() == value,
            value > Self::MAX_INTERRUPT_NUMBER ==> source is Err && source->Err_0 == value,
    ;
}

} // verus!
