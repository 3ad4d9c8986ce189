//! Software-level interrupt controller: many prioritized, maskable software
//! interrupt sources multiplexed onto one hardware trap.

pub mod api;
pub mod bridge;
pub mod config;
pub mod example;
pub mod exti;
pub mod number;
pub mod queue;
pub mod reach;
pub mod slic;

pub use api::{
    disable, dispatch, enable, get_priority, get_threshold, lock, next_dispatch, pend,
    pend_number, raise_threshold, restore_threshold, run, set_priority, set_priority_of,
    set_threshold, Runtime,
};
pub use bridge::{PendingBit, TrapBridge};
pub use number::InterruptNumber;
pub use slic::{SlicView, SLIC};
