//! The clock: wrap counters kept by the SysTick interrupt, and a read
//! protocol that joins them with the hardware counter.
use crate::hardware::{SimulatedSysTick, SysTickSource};
use crate::scaler::{
    is_least_shift, multiplier_for, no_shift_exists, scaled, widened, Scaler, MAX_SHIFT,
};
use crate::wraps::WrapCount;
use std::sync::atomic::{AtomicU32, Ordering};
use vstd::arithmetic::power2::pow2;
use vstd::prelude::*;

verus! {

/// The largest reload value the 24-bit counter takes.
pub const MAX_RELOAD: u32 = 0xFF_FFFF;

/// Nanoseconds in one second.
pub const NANOS_PER_SECOND: u64 = 1_000_000_000;

/// Why a configuration was refused.
#[derive(Clone, Copy, Debug, PartialEq, Eq, Structural)]
pub enum Reason {
    /// The reload value is 0.
    ReloadZero,
    /// The reload value does not fit in 24 bits.
    ReloadTooLarge,
    /// The source frequency is 0.
    SourceFrequencyZero,
    /// No shift in `[32, 63]` gives a multiplier that is nonzero and fits in
    /// 64 bits.
    NoShift,
}

/// A refused configuration.
#[derive(Clone, Copy, Debug, PartialEq, Eq, Structural)]
pub struct ConfigInvalid {
    pub reason: Reason,
}

/// The reason a configuration is refused, if it is; when several hold, the
/// first in this order.
pub open spec fn config_error(tick_hz: u64, reload_value: u32, systick_freq: u64) -> Option<Reason> {
    if reload_value > MAX_RELOAD {
        Some(Reason::ReloadTooLarge)
    } else if reload_value == 0 {
        Some(Reason::ReloadZero)
    } else if systick_freq == 0 {
        Some(Reason::SourceFrequencyZero)
    } else if no_shift_exists(tick_hz, systick_freq) {
        Some(Reason::NoShift)
    } else {
        None
    }
}

/// What one pass of the read protocol saw, in the order it was read: the wrap
/// count, `VAL`, the wrap count again, `PENDST`, `VAL` again, and the wrap
/// count a third time.
#[derive(Clone, Copy, Debug, PartialEq, Eq)]
pub struct Observation {
    pub wraps_pre: u64,
    pub val_before: u32,
    pub wraps_mid: u64,
    pub pending: bool,
    pub val_after: u32,
    pub wraps_post: u64,
}

/// A pass during which nothing moved: wrap count `wraps`, `VAL = val` and
/// `PENDST = pending` at every read.
pub open spec fn quiet_observation(wraps: u64, val: u32, pending: bool) -> Observation {
    Observation {
        wraps_pre: wraps,
        val_before: val,
        wraps_mid: wraps,
        pending,
        val_after: val,
        wraps_post: wraps,
    }
}

impl Observation {
    /// No wrap interrupt ran during the pass.
    pub open spec fn is_stable(&self) -> bool {
        self.wraps_mid == self.wraps_pre && self.wraps_post == self.wraps_pre
    }

    /// The hardware wrapped and the interrupt has not yet counted it: the
    /// interrupt is pending, or the down-counter went up between its reads.
    pub open spec fn wrap_seen(&self) -> bool {
        self.pending || self.val_after > self.val_before
    }

    /// The wrap count that the pass settles on.
    pub open spec fn settled_wraps(&self) -> int {
        if self.wrap_seen() {
            self.wraps_pre + 1
        } else {
            self.wraps_pre as int
        }
    }

    /// Whether the pass is stable.
    pub fn is_consistent(&self) -> (r: bool)
        ensures
            r == self.is_stable(),
    {
        self.wraps_mid == self.wraps_pre && self.wraps_post == self.wraps_pre
    }

    /// Whether the pass saw an uncounted wrap.
    pub fn saw_wrap(&self) -> (r: bool)
        ensures
            r == self.wrap_seen(),
    {
        self.pending || self.val_after > self.val_before
    }
}

/// Cycles elapsed in the current wrap period at counter value `val`. A value
/// above the reload value, which the hardware never gives, counts as the
/// start of the period.
pub open spec fn cycles_into_period(reload: int, val: int) -> int {
    if val <= reload {
        reload - val
    } else {
        0
    }
}

/// `x`, or `u64::MAX` where `x` is larger.
pub open spec fn saturated(x: int) -> int {
    if x > u64::MAX {
        u64::MAX as int
    } else {
        x
    }
}

/// Cycles since start for `wraps` wraps of `reload + 1` cycles each and
/// counter value `val`, saturating at `u64::MAX`.
pub open spec fn total_cycles(wraps: int, reload: int, val: int) -> int {
    saturated(wraps * (reload + 1) + cycles_into_period(reload, val))
}

/// One wrap period in nanoseconds: `(R + 1) * 10^9 / f_src`, rounded down.
pub open spec fn wrap_period_ns(reload: int, systick_freq: int) -> int {
    (reload + 1) * NANOS_PER_SECOND / systick_freq
}

/// `jump` lies within 1% (rounded down) of `k` wrap periods.
pub open spec fn near_periods(jump: int, k: int, period: int) -> bool {
    k * period - (k * period) / 100 <= jump <= k * period + (k * period) / 100
}

/// The diagnosis of a backwards step from `previous` to `current`: `Some(k + 1)`
/// for the least `k` in `{1, 2, 3}` such that the step is within 1% of `k`
/// wrap periods, meaning `k + 1` wraps that the interrupt missed; otherwise,
/// and when time did not go back or the frequency is 0, `None`.
pub open spec fn diagnosis(reload: int, current: int, previous: int, systick_freq: int) -> Option<u32> {
    if current >= previous || systick_freq == 0 {
        None
    } else {
        let jump = previous - current;
        let period = wrap_period_ns(reload, systick_freq);
        if near_periods(jump, 1, period) {
            Some(2u32)
        } else if near_periods(jump, 2, period) {
            Some(3u32)
        } else if near_periods(jump, 3, period) {
            Some(4u32)
        } else {
            None
        }
    }
}

/// A 64-bit clock on SysTick: wraps are counted in two 32-bit atomics, and
/// cycles are scaled to ticks of the output frequency.
pub struct Timer<H> {
    inner_wraps: AtomicU32,
    outer_wraps: AtomicU32,
    reload_value: u32,
    scaler: Scaler,
    source: H,
}

impl<H: SysTickSource> Timer<H> {
    /// The reload value `R`: a wrap is `R + 1` cycles.
    pub closed spec fn reload(&self) -> u32 {
        self.reload_value
    }

    /// The multiplier and shift that cycles are scaled by.
    pub closed spec fn scaler(&self) -> Scaler {
        self.scaler
    }

    /// The configuration is one that `with_source` accepts.
    pub open spec fn wf(&self) -> bool {
        &&& 1 <= self.reload() <= MAX_RELOAD
        &&& self.scaler().shift <= MAX_SHIFT
    }

    /// Cycles since start that an observation stands for.
    pub open spec fn cycles_spec(&self, o: Observation) -> int {
        total_cycles(o.settled_wraps(), self.reload() as int, o.val_after as int)
    }

    /// Output ticks for `cycles` cycles.
    pub open spec fn ticks_for(&self, cycles: int) -> int {
        scaled(self.scaler().multiplier, self.scaler().shift, cycles as u64)
    }

    /// Output ticks that an observation stands for.
    pub open spec fn ticks_spec(&self, o: Observation) -> int {
        self.ticks_for(self.cycles_spec(o))
    }

    /// A clock on `source` that counts ticks of `tick_hz` from a counter
    /// driven at `systick_freq` and reloaded with `reload_value`, with both
    /// wrap counters at zero.
    pub fn with_source(source: H, tick_hz: u64, reload_value: u32, systick_freq: u64) -> (r: Result<
        Timer<H>,
        ConfigInvalid,
    >)
        ensures
            config_error(tick_hz, reload_value, systick_freq) matches Some(reason) ==> r == Err::<
                Timer<H>,
                ConfigInvalid,
            >(ConfigInvalid { reason }),
            config_error(tick_hz, reload_value, systick_freq) is None ==> r is Ok,
            r matches Ok(t) ==> {
                &&& t.wf()
                &&& t.reload() == reload_value
                &&& is_least_shift(tick_hz, systick_freq, t.scaler().shift)
                &&& t.scaler().multiplier == multiplier_for(tick_hz, systick_freq, t.scaler().shift)
            },
    {
        if reload_value > MAX_RELOAD {
            return Err(ConfigInvalid { reason: Reason::ReloadTooLarge });
        }
        if reload_value == 0 {
            return Err(ConfigInvalid { reason: Reason::ReloadZero });
        }
        if systick_freq == 0 {
            return Err(ConfigInvalid { reason: Reason::SourceFrequencyZero });
        }
        match Scaler::new(tick_hz, systick_freq) {
            None => Err(ConfigInvalid { reason: Reason::NoShift }),
            Some(scaler) => Ok(
                Timer {
                    inner_wraps: AtomicU32::new(0),
                    outer_wraps: AtomicU32::new(0),
                    reload_value,
                    scaler,
                    source,
                },
            ),
        }
    }

    /// The reload value.
    pub fn reload_value(&self) -> (r: u32)
        ensures
            r == self.reload(),
    {
        self.reload_value
    }

    /// The wrap counters as they are now.
    pub fn wrap_counters(&self) -> WrapCount {
        let inner = self.inner_wraps.load(Ordering::SeqCst);
        let outer = self.outer_wraps.load(Ordering::SeqCst);
        WrapCount { inner, outer }
    }

    /// Overwrites the wrap counters.
    pub fn set_wrap_counters(&self, count: WrapCount) {
        self.outer_wraps.store(count.outer, Ordering::SeqCst);
        self.inner_wraps.store(count.inner, Ordering::SeqCst);
    }

    /// The wrap count as one 64-bit value.
    fn load_wraps(&self) -> u64 {
        self.wrap_counters().composite()
    }

    /// The SysTick interrupt handler: clears `COUNTFLAG` and counts one wrap.
    /// The low counter is stored first; the high one, when it carries, after.
    pub fn systick_handler(&self) {
        self.source.read_and_clear_countflag();
        let inner = self.inner_wraps.load(Ordering::SeqCst);
        let outer = self.outer_wraps.load(Ordering::SeqCst);
        let next = WrapCount { inner, outer }.advanced();
        self.inner_wraps.store(next.inner, Ordering::SeqCst);
        if next.outer != outer {
            self.outer_wraps.store(next.outer, Ordering::SeqCst);
        }
    }

    /// The current value of the down-counter.
    pub fn get_syst(&self) -> u32 {
        self.source.current_value()
    }

    /// Reads and clears `COUNTFLAG`.
    pub fn read_systick_countflag(&self) -> bool {
        self.source.read_and_clear_countflag()
    }

    /// Whether the SysTick interrupt is pending.
    pub fn is_systick_pending(&self) -> bool {
        self.source.is_pending()
    }

    /// Cycles since start that an observation stands for: its settled wrap
    /// count times `R + 1`, plus the cycles into the period at the second
    /// counter reading, saturating at `u64::MAX`.
    pub fn cycles_at(&self, o: &Observation) -> (cycles: u64)
        requires
            self.wf(),
        ensures
            cycles == self.cycles_spec(*o),
    {
        let reload = self.reload_value as u64;
        let wraps = if o.saw_wrap() {
            o.wraps_pre.saturating_add(1)
        } else {
            o.wraps_pre
        };
        let into_period = if o.val_after <= self.reload_value {
            reload - o.val_after as u64
        } else {
            0
        };
        proof {
            if o.wrap_seen() && o.wraps_pre == u64::MAX {
                assert(wraps * (reload + 1) > u64::MAX) by (nonlinear_arith)
                    requires
                        wraps == u64::MAX,
                        reload >= 1,
                ;
                assert(o.settled_wraps() * (reload + 1) > u64::MAX) by (nonlinear_arith)
                    requires
                        o.settled_wraps() == u64::MAX + 1,
                        reload >= 1,
                ;
            }
            assert(wraps * (reload + 1) >= 0) by (nonlinear_arith)
                requires
                    wraps >= 0,
                    reload >= 0,
            ;
        }
        match wraps.checked_mul(reload + 1) {
            Some(whole_periods) => whole_periods.saturating_add(into_period),
            None => u64::MAX,
        }
    }

    /// Output ticks that an observation stands for.
    pub fn ticks_at(&self, o: &Observation) -> (ticks: u64)
        requires
            self.wf(),
        ensures
            ticks == self.ticks_spec(*o),
            ticks == widened(self.scaler().multiplier, self.scaler().shift, self.cycles_spec(*o) as u64),
    {
        let cycles = self.cycles_at(o);
        self.scaler.scale(cycles)
    }

    /// The current time in output ticks.
    ///
    /// Reads the wrap count, `VAL` and the wrap count, then `PENDST`, `VAL`
    /// and the wrap count, and starts again as soon as the wrap count differs
    /// from its first reading, since a wrap interrupt ran in between. A wrap
    /// that the hardware made and the interrupt has not yet counted is added
    /// (see `cycles_at`). `COUNTFLAG` is left to the handler. Each new start
    /// needs a wrap interrupt, so after `u64::MAX` of them, more than the wrap
    /// count can hold, the last pass is taken as it is. Whatever the
    /// registers and counters held, the result is what `ticks_at` gives for
    /// some observation.
    pub fn now(&self) -> (ticks: u64)
        requires
            self.wf(),
        ensures
            exists|o: Observation| ticks == self.ticks_spec(o),
    {
        let mut retries_left: u64 = u64::MAX;
        loop
            invariant
                self.wf(),
            decreases retries_left,
        {
            let wraps_pre = self.load_wraps();
            let val_before = self.source.current_value();
            let wraps_mid = self.load_wraps();
            if wraps_mid == wraps_pre || retries_left == 0 {
                let pending = self.source.is_pending();
                let val_after = self.source.current_value();
                let wraps_post = self.load_wraps();
                let obs = Observation {
                    wraps_pre,
                    val_before,
                    wraps_mid,
                    pending,
                    val_after,
                    wraps_post,
                };
                if obs.is_consistent() || retries_left == 0 {
                    return self.ticks_at(&obs);
                }
            }
            retries_left = retries_left - 1;
        }
    }

    /// Attributes a backwards step of the clock, from `previous_time` to
    /// `current_time`, to missed wrap interrupts. The step is compared, as a
    /// number of nanoseconds, with one, two and three wrap periods at
    /// `systick_freq`; a match within 1% of that many periods means one more missed
    /// wrap than periods, since `now` already makes up for one. Returns `None`
    /// when time did not go back, when nothing matches, and when
    /// `systick_freq` is 0.
    pub fn diagnose_timing_violation(
        &self,
        current_time: u64,
        previous_time: u64,
        systick_freq: u64,
    ) -> (r: Option<u32>)
        requires
            self.wf(),
        ensures
            r == diagnosis(self.reload() as int, current_time as int, previous_time as int, systick_freq as int),
    {
        if current_time >= previous_time || systick_freq == 0 {
            return None;
        }
        let backwards_jump = previous_time - current_time;
        let wrap_period = ((self.reload_value as u64 + 1) * NANOS_PER_SECOND) / systick_freq;
        assert(wrap_period <= (MAX_RELOAD + 1) * NANOS_PER_SECOND) by {
            vstd::arithmetic::div_mod::lemma_div_is_ordered_by_denominator(
                (self.reload_value as u64 + 1) * NANOS_PER_SECOND, 1, systick_freq as int);
        }
        let mut observed_periods: u64 = 1;
        while observed_periods <= 3
            invariant
                1 <= observed_periods <= 4,
                wrap_period == wrap_period_ns(self.reload() as int, systick_freq as int),
                wrap_period <= (MAX_RELOAD + 1) * NANOS_PER_SECOND,
                current_time < previous_time,
                systick_freq > 0,
                backwards_jump == previous_time - current_time,
                forall|k: int| 1 <= k < observed_periods ==> !#[trigger] near_periods(backwards_jump as int, k, wrap_period as int),
            decreases 4 - observed_periods,
        {
            assert(observed_periods * wrap_period <= 3 * ((MAX_RELOAD + 1) * NANOS_PER_SECOND)) by (nonlinear_arith)
                requires
                    observed_periods <= 3,
                    wrap_period <= (MAX_RELOAD + 1) * NANOS_PER_SECOND,
            ;
            let expected_jump = observed_periods * wrap_period;
            let tolerance = expected_jump / 100;
            if backwards_jump >= expected_jump.saturating_sub(tolerance)
                && backwards_jump <= expected_jump + tolerance
            {
                assert(near_periods(backwards_jump as int, observed_periods as int, wrap_period as int));
                assert(!near_periods(backwards_jump as int, 1, wrap_period as int) || observed_periods == 1);
                assert(!near_periods(backwards_jump as int, 2, wrap_period as int) || observed_periods <= 2);
                return Some(observed_periods as u32 + 1);
            }
            observed_periods = observed_periods + 1;
        }
        assert(!near_periods(backwards_jump as int, 1, wrap_period as int));
        assert(!near_periods(backwards_jump as int, 2, wrap_period as int));
        assert(!near_periods(backwards_jump as int, 3, wrap_period as int));
        None
    }
}

/// A clock read before any wrap, with `VAL` at the reload value and no wrap
/// pending, gives 0.
pub proof fn lemma_zero_at_start<H: SysTickSource>(t: Timer<H>)
    requires
        t.wf(),
    ensures
        t.ticks_spec(quiet_observation(0, t.reload(), false)) == 0,
{
    let o = quiet_observation(0, t.reload(), false);
    assert(t.cycles_spec(o) == 0);
    let q = pow2(t.scaler().shift as nat) as int;
    vstd::arithmetic::power2::lemma_pow2_pos(t.scaler().shift as nat);
    assert((0u64 as int * t.scaler().multiplier as int) / q == 0) by (nonlinear_arith)
        requires
            q > 0,
    ;
}

/// While a wrap waits for its interrupt, readings at lower `VAL` give
/// strictly more cycles and no fewer ticks, all counting the pending wrap;
/// once the interrupt has counted it and `PENDST` is clear, a reading at the
/// same `VAL` gives the same ticks as before. This holds where the cycles do
/// not reach `u64::MAX` and the ticks fit in 64 bits.
pub proof fn lemma_pending_wrap_counts_once<H: SysTickSource>(
    t: Timer<H>,
    wraps: u64,
    earlier: u32,
    later: u32,
)
    requires
        t.wf(),
        later < earlier <= t.reload(),
        (wraps + 1) * (t.reload() + 1) + t.reload() <= u64::MAX,
        ((wraps + 1) * (t.reload() + 1) + t.reload()) * t.scaler().multiplier / pow2(
            t.scaler().shift as nat,
        ) as int <= u64::MAX,
    ensures
        t.cycles_spec(quiet_observation(wraps, earlier, true)) == (wraps + 1) * (t.reload() + 1)
            + t.reload() - earlier,
        t.cycles_spec(quiet_observation(wraps, earlier, true)) < t.cycles_spec(
            quiet_observation(wraps, later, true),
        ),
        t.ticks_spec(quiet_observation(wraps, earlier, true)) <= t.ticks_spec(
            quiet_observation(wraps, later, true),
        ),
        t.ticks_spec(quiet_observation(wraps, later, true)) == t.ticks_spec(
            quiet_observation((wraps + 1) as u64, later, false),
        ),
{
    let r = t.reload() as int;
    let c_max = (wraps + 1) * (r + 1) + r;
    let c1 = t.cycles_spec(quiet_observation(wraps, earlier, true));
    let c2 = t.cycles_spec(quiet_observation(wraps, later, true));
    assert(c2 <= c_max);
    let m = t.scaler().multiplier;
    let q = pow2(t.scaler().shift as nat) as int;
    vstd::arithmetic::power2::lemma_pow2_pos(t.scaler().shift as nat);
    vstd::arithmetic::mul::lemma_mul_inequality(c2, c_max, m as int);
    vstd::arithmetic::div_mod::lemma_div_is_ordered(c2 * m, c_max * m, q);
    crate::scaler::lemma_scaled_monotone(m, t.scaler().shift, c1 as u64, c2 as u64);
}

impl Timer<SimulatedSysTick> {
    /// A clock on a simulated peripheral, with `VAL = 0`, both flags clear and
    /// both wrap counters at zero. Refused as `with_source` refuses.
    pub fn new(tick_hz: u64, reload_value: u32, systick_freq: u64) -> (r: Result<Timer<SimulatedSysTick>, ConfigInvalid>)
        ensures
            config_error(tick_hz, reload_value, systick_freq) matches Some(reason) ==> r == Err::<
                Timer<SimulatedSysTick>,
                ConfigInvalid,
            >(ConfigInvalid { reason }),
            config_error(tick_hz, reload_value, systick_freq) is None ==> r is Ok,
            r matches Ok(t) ==> {
                &&& t.wf()
                &&& t.reload() == reload_value
                &&& is_least_shift(tick_hz, systick_freq, t.scaler().shift)
                &&& t.scaler().multiplier == multiplier_for(tick_hz, systick_freq, t.scaler().shift)
            },
    {
        Timer::with_source(SimulatedSysTick::new(), tick_hz, reload_value, systick_freq)
    }

    /// Sets the simulated `VAL`.
    pub fn set_syst(&self, value: u32) {
        self.source.set_value(value);
    }

    /// Sets or clears the simulated `COUNTFLAG`.
    pub fn set_systick_has_wrapped(&self, val: bool) {
        self.source.set_count_flag(val);
    }

    /// Sets or clears the simulated `PENDST`.
    pub fn set_pendst_pending(&self, val: bool) {
        self.source.set_pending(val);
    }
}

} // verus!
