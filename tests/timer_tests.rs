use systick_timer::hardware::SimulatedSysTick;
use systick_timer::scaler::compute_shift;
use systick_timer::timer::Timer;
use systick_timer::wraps::WrapCount;

struct TestTimer<const RELOAD: u32> {
    timer: Timer<SimulatedSysTick>,
}

impl<const RELOAD: u32> TestTimer<RELOAD> {
    fn new(tick_hz: u64, systick_freq: u64) -> Self {
        Self {
            timer: Timer::new(tick_hz, RELOAD, systick_freq).unwrap(),
        }
    }

    fn interrupt(&mut self) {
        self.timer.systick_handler();
        self.timer.set_syst(RELOAD);
    }

    fn set_tick(&mut self, tick: u32) -> u64 {
        assert!(tick <= RELOAD);
        self.timer.set_syst(tick);
        self.timer.now()
    }
}

fn store_inner(timer: &Timer<SimulatedSysTick>, inner: u32) {
    let outer = timer.wrap_counters().outer;
    timer.set_wrap_counters(WrapCount { inner, outer });
}

fn store_outer(timer: &Timer<SimulatedSysTick>, outer: u32) {
    let inner = timer.wrap_counters().inner;
    timer.set_wrap_counters(WrapCount { inner, outer });
}

fn check_timer_new() {
    let timer = Timer::new(1000, 5, 12_000).unwrap();
    store_inner(&timer, 4); // 4 interrupts = 24 cycles
    timer.set_syst(3); // Start of next period
    assert_eq!(timer.now(), 2); // Should be ~2 ticks
}

#[test]
fn test_timer_new() {
    check_timer_new();
}

#[test]
fn timer_test_timer_new() {
    check_timer_new();
}

fn check_compute_shift() {
    assert_eq!(compute_shift(1000, 12_000), 32);
    // This ratio overflows 32bit, so we shift
    assert_eq!(compute_shift(3, 16_000_000_000), 33);
}

#[test]
fn test_compute_shift() {
    check_compute_shift();
}

#[test]
fn timer_test_compute_shift() {
    check_compute_shift();
}

fn check_timer_initial_state() {
    let timer = Timer::new(1000, 5, 12_000).unwrap();
    assert_eq!(timer.now(), 0);
}

#[test]
fn test_timer_initial_state() {
    check_timer_initial_state();
}

#[test]
fn timer_test_timer_initial_state() {
    check_timer_initial_state();
}

fn check_timer_matching_rates() {
    let mut timer = TestTimer::<5>::new(1000, 1000);
    assert_eq!(timer.set_tick(5), 0);
    assert_eq!(timer.set_tick(4), 1);
    assert_eq!(timer.set_tick(0), 5);
    timer.interrupt();
    assert_eq!(timer.set_tick(5), 6);
}

#[test]
fn test_timer_matching_rates() {
    check_timer_matching_rates();
}

#[test]
fn timer_test_timer_matching_rates() {
    check_timer_matching_rates();
}

fn check_timer_tick_rate_2x() {
    let mut timer = TestTimer::<5>::new(2000, 1000);
    assert_eq!(timer.set_tick(5), 0);
    assert_eq!(timer.set_tick(4), 2);
    assert_eq!(timer.set_tick(0), 10);
    timer.interrupt();
    assert_eq!(timer.set_tick(5), 12);
    timer.interrupt();
    assert_eq!(timer.set_tick(5), 24);
}

#[test]
fn test_timer_tick_rate_2x() {
    check_timer_tick_rate_2x();
}

#[test]
fn timer_test_timer_tick_rate_2x() {
    check_timer_tick_rate_2x();
}

fn check_systick_rate_2x() {
    let mut timer = TestTimer::<5>::new(1000, 2000);
    assert_eq!(timer.set_tick(5), 0);
    assert_eq!(timer.set_tick(4), 0);
    assert_eq!(timer.set_tick(3), 1);
    assert_eq!(timer.set_tick(2), 1);
    assert_eq!(timer.set_tick(0), 2);
    timer.interrupt();
    assert_eq!(timer.set_tick(5), 3);
    timer.interrupt();
    assert_eq!(timer.set_tick(5), 6);
}

#[test]
fn test_systick_rate_2x() {
    check_systick_rate_2x();
}

#[test]
fn timer_test_systick_rate_2x() {
    check_systick_rate_2x();
}

fn check_outer_wraps_wrapping() {
    let mut timer = TestTimer::<5>::new(1000, 1000);
    // Set up for outer_wraps overflow
    store_inner(&timer.timer, u32::MAX);
    store_outer(&timer.timer, u32::MAX);
    timer.timer.set_syst(5);

    // One more interrupt should wrap outer_wraps
    timer.interrupt();
    // Should still count correctly despite wrapping
    // With matching rates, we expect total_cycles * (1000/1000) ticks
    assert_eq!(timer.set_tick(5), ((1u128 << 64) * 1000 / 1000) as u64);
}

#[test]
fn test_outer_wraps_wrapping() {
    check_outer_wraps_wrapping();
}

#[test]
fn timer_test_outer_wraps_wrapping() {
    check_outer_wraps_wrapping();
}

fn check_extreme_rates() {
    // Test with very high tick rate vs systick rate (1000:1)
    let mut timer = TestTimer::<5>::new(1_000_000, 1000);
    assert_eq!(timer.set_tick(5), 0);
    timer.interrupt(); // One interrupt = 6 cycles, each cycle = 1000 ticks
    assert_eq!(timer.set_tick(5), 6000); // 6 cycles * 1000 ticks/cycle

    // Test with very low tick rate vs systick rate (1:1000)
    let mut timer = TestTimer::<5>::new(1000, 1_000_000);
    // With 1000:1 ratio and reload of 5 (6 cycles per interrupt)
    // We need (1_000_000/1000 * 6) = 6000 cycles for 6 ticks
    // So we need 1000 interrupts for 6 ticks
    for _ in 0..1000 {
        timer.interrupt();
    }
    assert_eq!(timer.set_tick(5), 5); // Should get 5 complete ticks
}

#[test]
fn test_extreme_rates() {
    check_extreme_rates();
}

#[test]
fn timer_test_extreme_rates() {
    check_extreme_rates();
}

fn check_boundary_conditions() {
    // Test with minimum reload value
    let mut timer = TestTimer::<1>::new(1000, 1000);
    assert_eq!(timer.set_tick(1), 0);
    assert_eq!(timer.set_tick(0), 1);
    timer.interrupt();
    assert_eq!(timer.set_tick(1), 2);

    // Test with maximum reload value
    let mut timer = TestTimer::<0xFFFFFF>::new(1000, 1000);
    assert_eq!(timer.set_tick(0xFFFFFF), 0);
    assert_eq!(timer.set_tick(0xFFFF00), 255);
    assert_eq!(timer.set_tick(0), 0xFFFFFF);
}

#[test]
fn test_boundary_conditions() {
    check_boundary_conditions();
}

#[test]
fn timer_test_boundary_conditions() {
    check_boundary_conditions();
}

fn check_partial_tick_accuracy() {
    // With matching rates, test partial periods
    let mut timer = TestTimer::<100>::new(1000, 1000);
    assert_eq!(timer.set_tick(100), 0); // Start of period
    assert_eq!(timer.set_tick(75), 25); // 25% through period = 25 ticks
    assert_eq!(timer.set_tick(50), 50); // 50% through period = 50 ticks
    assert_eq!(timer.set_tick(25), 75); // 75% through period = 75 ticks
    assert_eq!(timer.set_tick(0), 100); // End of period = 100 ticks
}

#[test]
fn test_partial_tick_accuracy() {
    check_partial_tick_accuracy();
}

#[test]
fn timer_test_partial_tick_accuracy() {
    check_partial_tick_accuracy();
}

fn check_interrupt_race() {
    let mut timer = TestTimer::<5>::new(1000, 1000);
    timer.interrupt();
    timer.timer.set_syst(3);
    let t1 = timer.timer.now();
    timer.interrupt();
    let t2 = timer.timer.now();
    assert!(t2 > t1); // Monotonicity
}

#[test]
fn test_interrupt_race() {
    check_interrupt_race();
}

#[test]
fn timer_test_interrupt_race() {
    check_interrupt_race();
}

fn check_rapid_interrupts() {
    let mut timer = TestTimer::<5>::new(1000, 1000);
    // With matching rates, each interrupt = 6 cycles = 6 ticks
    for _ in 0..10 {
        timer.interrupt();
    }
    // 10 interrupts * 6 cycles/interrupt * (1000/1000) = 60 ticks
    assert_eq!(timer.set_tick(5), 60);

    // At position 2, we're 3 cycles in = 3 more ticks
    assert_eq!(timer.set_tick(2), 63);
}

#[test]
fn test_rapid_interrupts() {
    check_rapid_interrupts();
}

#[test]
fn timer_test_rapid_interrupts() {
    check_rapid_interrupts();
}

fn check_u64_overflow_scenario() {
    // TICK_RESOLUTION: 10_000_000 (tick_hz)
    // reload_value: 0xFFFFFF (16,777,215)
    // systick_freq: 100_000_000
    let timer = Timer::new(10_000_000, 0xFFFFFF, 100_000_000).unwrap();

    let total_interrupts = 2560u64;
    let outer = (total_interrupts >> 32) as u32;
    let inner = total_interrupts as u32;

    store_outer(&timer, outer);
    store_inner(&timer, inner);

    // This call should take the u128 fallback path.
    let expected_ticks = 4_296_645_011;
    assert_eq!(timer.now(), expected_ticks);
}

#[test]
fn test_u64_overflow_scenario() {
    check_u64_overflow_scenario();
}

#[test]
fn timer_test_u64_overflow_scenario() {
    check_u64_overflow_scenario();
}

#[test]
fn test_monotonicity_around_wrap() {
    const RELOAD: u32 = 100;
    let timer = Timer::new(1_000, RELOAD, 1_000).unwrap();

    // 1. Time right before the wrap
    timer.set_syst(1);
    let t1 = timer.now();

    // 2. Simulate the hardware wrap:
    //    - The ISR has NOT run yet, but the pending bit is set.
    timer.set_syst(RELOAD);
    timer.set_pendst_pending(true);

    // 3. Time right after the wrap
    let t2 = timer.now();

    assert!(
        t2 >= t1,
        "Timer is not monotonic: t1 was {}, t2 was {}",
        t1,
        t2
    );

    // t1 is close to the end of a period, t2 at the beginning of the next.
    assert_eq!(t1, 99);
    assert_eq!(t2, 101);
}

fn check_monotonicity_between_interrupts() {
    const RELOAD: u32 = 100;
    let timer = Timer::new(1_000, RELOAD, 1_000).unwrap();

    // Set the counter to the reload value, no wraps yet.
    timer.set_syst(RELOAD);
    let t1 = timer.now();

    // Simulate time passing by decrementing the hardware counter.
    timer.set_syst(RELOAD / 2);
    let t2 = timer.now();

    // Decrement again.
    timer.set_syst(0);
    let t3 = timer.now();

    // Assert that time is always moving forward.
    assert!(t2 > t1, "t2 ({}) should be > t1 ({})", t2, t1);
    assert!(t3 > t2, "t3 ({}) should be > t2 ({})", t3, t2);

    // Also check the specific values for correctness.
    assert_eq!(t1, 0);
    assert_eq!(t2, 50);
    assert_eq!(t3, 100);
}

#[test]
fn test_monotonicity_between_interrupts() {
    check_monotonicity_between_interrupts();
}

#[test]
fn timer_test_monotonicity_between_interrupts() {
    check_monotonicity_between_interrupts();
}

#[test]
fn test_monotonicity_with_starved_isr() {
    const RELOAD: u32 = 100; // period = 101 cycles
    let timer = Timer::new(1_000, RELOAD, 1_000).unwrap(); // 1 tick per cycle

    // State 1: Right before a wrap.
    timer.set_syst(1);
    let t1 = timer.now();
    assert_eq!(t1, 100 - 1);

    // State 2: Hardware wraps, ISR is pended but does not run.
    timer.set_pendst_pending(true);
    timer.set_syst(RELOAD - 10); // Timer has wrapped and counted down a bit.

    // First call to now() after the wrap. It must see the pending bit.
    let t2 = timer.now();
    let expected_t2 = (0 + 1) * (RELOAD as u64 + 1) + (RELOAD as u64 - (RELOAD as u64 - 10));
    assert_eq!(t2, expected_t2);
    assert!(
        t2 > t1,
        "Time must advance after wrap. t1={}, t2={}",
        t1,
        t2
    );

    // State 3: More time passes, ISR is still starved.
    timer.set_syst(RELOAD - 20);

    // Second call to now(). It must still see the pending bit.
    let t3 = timer.now();
    let expected_t3 = (0 + 1) * (RELOAD as u64 + 1) + (RELOAD as u64 - (RELOAD as u64 - 20));
    assert_eq!(t3, expected_t3);
    assert!(
        t3 > t2,
        "Time must advance even if ISR is starved. t2={}, t3={}",
        t2,
        t3
    );

    // State 4: The ISR finally runs, clearing the pending bit and incrementing wraps.
    timer.set_pendst_pending(false);
    timer.systick_handler(); // This increments inner_wraps to 1.

    // Third call to now(). It should now use the updated wrap counter.
    let t4 = timer.now();
    let expected_t4 = 1 * (RELOAD as u64 + 1) + (RELOAD as u64 - (RELOAD as u64 - 20));
    assert_eq!(t4, expected_t4);
    assert_eq!(
        t4, t3,
        "Time should be consistent after ISR runs. t3={}, t4={}",
        t3, t4
    );
}
