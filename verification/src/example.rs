//! The configuration of a controller for the source list `GPIO0`, `GPIO1`,
//! `SPI5`: three sources, numbered 0, 1 and 2 in the order of the list, each
//! named after the hardware line it is bound to, with a handler of the same
//! name.

use crate::number::InterruptNumber;
use vstd::prelude::*;

verus! {

/// Enumeration of software interrupts.
#[allow(clippy::upper_case_acronyms)]
#[derive(Clone, Copy, Debug, PartialEq, Eq, Structural)]
pub enum Interrupt {
    GPIO0,
    GPIO1,
    SPI5,
}

impl Interrupt {
    /// The number of a source: its place in the enumeration.
    pub open spec fn ordinal(self) -> u16 {
        match self {
            Interrupt::GPIO0 => 0,
            Interrupt::GPIO1 => 1,
            Interrupt::SPI5 => 2,
        }
    }

    /// The source with number `value`, or the number back if there is none.
    pub fn try_from(value: u16) -> (source: Result<Self, u16>)
        ensures
            value <= 2 ==> source is Ok && source->Ok_0.ordinal() == value,
            value > 2 ==> source is Err && source->Err_0 == value,
    {
        match value {
            0 => Ok(Self::GPIO0),
            1 => Ok(Self::GPIO1),
            2 => Ok(Self::SPI5),
            _ => Err(value),
        }
    }
}

impl InterruptNumber for Interrupt {
    const MAX_INTERRUPT_NUMBER: u16 = 2;

    open spec fn index(self) -> u16 {
        self.ordinal()
    }

    proof fn index_is_injective(a: Self, b: Self) {
    }

    fn number(self) -> (n: u16) {
        match self {
            Interrupt::GPIO0 => 0,
            Interrupt::GPIO1 => 1,
            Interrupt::SPI5 => 2,
        }
    }

    fn from_number(value: u16) -> (source: Result<Self, u16>) {
        Interrupt::try_from(value)
    }
}

/// The handler table: runs the handler of `source`.
pub fn software_interrupt(source: Interrupt) {
    match source {
        Interrupt::GPIO0 => GPIO0(),
        Interrupt::GPIO1 => GPIO1(),
        Interrupt::SPI5 => SPI5(),
    }
}

/// Handler of [`Interrupt::GPIO0`]: nothing to do.
#[allow(non_snake_case)]
pub fn GPIO0() {
}

/// Handler of [`Interrupt::GPIO1`]: nothing to do.
#[allow(non_snake_case)]
pub fn GPIO1() {
}

/// Handler of [`Interrupt::SPI5`]: nothing to do.
#[allow(non_snake_case)]
pub fn SPI5() {
}

} // verus!
