//! Helpers of the on-target stress test: units, durations, interrupt
//! priorities, and the verdict on each reading of the clock.
use crate::hardware::SysTickSource;
use crate::timer::{diagnosis, Timer};
use vstd::arithmetic::power2::pow2;
use vstd::prelude::*;

verus! {

/// Ticks per second of the stress test's clock: one tick per nanosecond.
pub const TICK_RESOLUTION: u64 = 1_000_000_000;

/// How long the short form of the stress test runs, in seconds.
pub const SHORT_TEST_SECONDS: u64 = 5;

/// `s` seconds in ticks of `TICK_RESOLUTION`.
pub fn seconds(s: u64) -> (r: u64)
    requires
        s * TICK_RESOLUTION <= u64::MAX,
    ensures
        r == s * TICK_RESOLUTION,
{
    s * TICK_RESOLUTION
}

/// The stress test's duration in seconds: `full_duration` for the full run,
/// `SHORT_TEST_SECONDS` otherwise.
pub fn get_test_duration_seconds(full_duration: u64, full_run: bool) -> (r: u64)
    ensures
        r == if full_run {
            full_duration
        } else {
            SHORT_TEST_SECONDS
        },
{
    if full_run {
        full_duration
    } else {
        SHORT_TEST_SECONDS
    }
}

/// An NVIC priority level placed in the top `implemented_bits` bits of its
/// priority byte, where the core reads it; bits above the byte are dropped.
pub fn encode_priority(priority: u8, implemented_bits: u8) -> (r: u8)
    requires
        1 <= implemented_bits <= 8,
    ensures
        r == (priority as int * pow2((8 - implemented_bits) as nat) as int) % 256,
{
    let shift: u8 = 8 - implemented_bits;
    let r = priority << shift;
    proof {
        assert(priority << shift == ((priority as u32) << (shift as u32)) as u8) by (bit_vector)
            requires
                shift < 8,
        ;
        vstd::arithmetic::power2::lemma_pow2_strictly_increases(shift as nat, 8);
        vstd::arithmetic::power2::lemma2_to64();
        assert((priority as u32) * pow2(shift as nat) <= 255 * 256) by (nonlinear_arith)
            requires
                priority <= 255,
                pow2(shift as nat) <= 256,
        ;
        vstd::bits::lemma_u32_shl_is_mul(priority as u32, shift as u32);
        let wide = (priority as u32) << (shift as u32);
        assert((wide as u8) as int == wide as int % 256) by (bit_vector);
    }
    r
}

/// Which interrupt outranks which in a stress run.
#[derive(Clone, Copy, Debug, PartialEq, Eq, Structural)]
pub enum PriorityConfig {
    /// All equal: SysTick 1, Timer1 1, Timer2 1.
    Equal,
    /// SysTick 0, Timer1 1, Timer2 1.
    SystickHigh,
    /// SysTick 1, Timer1 0, Timer2 1.
    Timer1High,
    /// SysTick 1, Timer1 1, Timer2 0.
    Timer2High,
    /// SysTick 0, Timer1 0, Timer2 2.
    Mixed1,
    /// SysTick 0, Timer1 1, Timer2 2.
    Mixed2,
    /// SysTick 0, Timer1 2, Timer2 1.
    Mixed3,
    /// SysTick 2, Timer1 0, Timer2 0.
    TimersHigh,
}

/// The priority levels of a configuration, in the order SysTick, Timer1,
/// Timer2; a lower level outranks a higher one.
pub open spec fn priority_levels(config: PriorityConfig) -> (u8, u8, u8) {
    match config {
        PriorityConfig::Equal => (1, 1, 1),
        PriorityConfig::SystickHigh => (0, 1, 1),
        PriorityConfig::Timer1High => (1, 0, 1),
        PriorityConfig::Timer2High => (1, 1, 0),
        PriorityConfig::Mixed1 => (0, 0, 2),
        PriorityConfig::Mixed2 => (0, 1, 2),
        PriorityConfig::Mixed3 => (0, 2, 1),
        PriorityConfig::TimersHigh => (2, 0, 0),
    }
}

impl PriorityConfig {
    /// The priority levels of SysTick, Timer1 and Timer2.
    pub fn levels(&self) -> (r: (u8, u8, u8))
        ensures
            r == priority_levels(*self),
    {
        match self {
            PriorityConfig::Equal => (1, 1, 1),
            PriorityConfig::SystickHigh => (0, 1, 1),
            PriorityConfig::Timer1High => (1, 0, 1),
            PriorityConfig::Timer2High => (1, 1, 0),
            PriorityConfig::Mixed1 => (0, 0, 2),
            PriorityConfig::Mixed2 => (0, 1, 2),
            PriorityConfig::Mixed3 => (0, 2, 1),
            PriorityConfig::TimersHigh => (2, 0, 0),
        }
    }
}

/// The two test timers whose interrupts read the clock.
#[derive(Clone, Copy, Debug, PartialEq, Eq, Structural)]
pub enum TimerId {
    Timer1,
    Timer2,
}

impl TimerId {
    /// The timer's name.
    pub fn name(&self) -> (r: &'static str)
        ensures
            *self == TimerId::Timer1 ==> r@ == "Timer1"@,
            *self == TimerId::Timer2 ==> r@ == "Timer2"@,
    {
        match self {
            TimerId::Timer1 => "Timer1",
            TimerId::Timer2 => "Timer2",
        }
    }
}

/// What a reading of the clock shows against the one before.
#[derive(Clone, Copy, Debug, PartialEq, Eq, Structural)]
pub enum Reading {
    /// Time did not go back.
    Monotonic,
    /// Time went back by about a whole number of wrap periods: the wrap
    /// interrupt was held off for this many wraps in all.
    Starved { total_missed_wraps: u32 },
    /// Time went back for some other reason.
    UnknownViolation,
}

/// The verdict on `now` after `last_now`: monotonic, or a backwards step that
/// `diagnose_timing_violation` attributes to missed wraps, or one it cannot.
pub fn classify_reading<H: SysTickSource>(
    timer: &Timer<H>,
    now: u64,
    last_now: u64,
    core_frequency: u32,
) -> (r: Reading)
    requires
        timer.wf(),
    ensures
        now >= last_now ==> r == Reading::Monotonic,
        now < last_now ==> match diagnosis(
            timer.reload() as int,
            now as int,
            last_now as int,
            core_frequency as int,
        ) {
            Some(k) => r == (Reading::Starved { total_missed_wraps: k }),
            None => r == Reading::UnknownViolation,
        },
{
    if now >= last_now {
        return Reading::Monotonic;
    }
    match timer.diagnose_timing_violation(now, last_now, core_frequency as u64) {
        Some(total_missed_wraps) => Reading::Starved { total_missed_wraps },
        None => Reading::UnknownViolation,
    }
}

} // verus!
