//! The three SysTick registers that the clock reads, and a software double of
//! them for hosted use.
use std::sync::atomic::{AtomicBool, AtomicU32, Ordering};
use vstd::prelude::*;

verus! {

/// Access to the SysTick peripheral.
///
/// An implementation must follow the hardware: `current_value` counts down
/// from the reload value to 0 and then jumps back to the reload value, the
/// count flag is set on each such jump, and the pending bit stays set from the
/// jump until the wrap interrupt is entered.
pub trait SysTickSource {
    /// The down-counter `VAL`.
    fn current_value(&self) -> u32;

    /// Reads the `COUNTFLAG` bit, which says that the counter wrapped since the
    /// last read, and clears it.
    fn read_and_clear_countflag(&self) -> bool;

    /// The `PENDST` bit: the wrap interrupt is pending.
    fn is_pending(&self) -> bool;
}

/// A SysTick peripheral held in memory, whose registers are set by hand.
pub struct SimulatedSysTick {
    current: AtomicU32,
    count_flag: AtomicBool,
    pending: AtomicBool,
}

impl SimulatedSysTick {
    /// A peripheral with `VAL = 0` and both flags clear.
    pub fn new() -> SimulatedSysTick {
        SimulatedSysTick {
            current: AtomicU32::new(0),
            count_flag: AtomicBool::new(false),
            pending: AtomicBool::new(false),
        }
    }

    /// Sets `VAL`.
    pub fn set_value(&self, value: u32) {
        self.current.store(value, Ordering::SeqCst);
    }

    /// Sets or clears `COUNTFLAG`.
    pub fn set_count_flag(&self, flag: bool) {
        self.count_flag.store(flag, Ordering::SeqCst);
    }

    /// Sets or clears `PENDST`.
    pub fn set_pending(&self, flag: bool) {
        self.pending.store(flag, Ordering::SeqCst);
    }
}

impl SysTickSource for SimulatedSysTick {
    fn current_value(&self) -> u32 {
        self.current.load(Ordering::SeqCst)
    }

    fn read_and_clear_countflag(&self) -> bool {
        self.count_flag.swap(false, Ordering::SeqCst)
    }

    fn is_pending(&self) -> bool {
        self.pending.load(Ordering::SeqCst)
    }
}

} // verus!
