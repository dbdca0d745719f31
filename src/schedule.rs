//! A model of the three parties that share the clock: the hardware, which
//! counts down and wraps; the interrupt, which counts a pending wrap; and an
//! observer, whose reads of the wrap count, `VAL` and `PENDST` fall at any
//! points of the schedule. It states what the read protocol returns.
use crate::hardware::SysTickSource;
use crate::scaler::lemma_scaled_monotone;
use crate::timer::{saturated, Observation, Timer};
use vstd::arithmetic::power2::pow2;
use vstd::prelude::*;

verus! {

/// What the drivers see: wraps counted so far, `VAL`, and `PENDST`.
pub struct Machine {
    pub wraps: nat,
    pub val: nat,
    pub pending: bool,
}

/// One move of a driver.
pub enum Event {
    /// The hardware counts down one cycle; at 0 it reloads and sets `PENDST`.
    Tick,
    /// The interrupt is taken: `PENDST` clears and the handler counts a wrap.
    Service,
}

/// The state after one event.
pub open spec fn step(reload: nat, m: Machine, e: Event) -> Machine {
    match e {
        Event::Tick => if m.val > 0 {
            Machine { wraps: m.wraps, val: (m.val - 1) as nat, pending: m.pending }
        } else {
            Machine { wraps: m.wraps, val: reload, pending: true }
        },
        Event::Service => Machine { wraps: m.wraps + 1, val: m.val, pending: false },
    }
}

/// The event may happen in this state: the interrupt is taken only when
/// pending, and the hardware does not wrap again while a wrap is pending
/// (the interrupt is never held off for a whole wrap period).
pub open spec fn permitted(m: Machine, e: Event) -> bool {
    match e {
        Event::Tick => m.val > 0 || !m.pending,
        Event::Service => m.pending,
    }
}

/// The state after the first `k` events of a schedule.
pub open spec fn state_at(reload: nat, start: Machine, events: Seq<Event>, k: nat) -> Machine
    decreases k,
{
    if k == 0 || k > events.len() {
        start
    } else {
        step(reload, state_at(reload, start, events, (k - 1) as nat), events[k - 1])
    }
}

/// Every event of the schedule is permitted where it happens, from a start
/// with `VAL` at most the reload value.
pub open spec fn valid_schedule(reload: nat, start: Machine, events: Seq<Event>) -> bool {
    &&& start.val <= reload
    &&& forall|k: nat| k < events.len() ==> permitted(
        #[trigger] state_at(reload, start, events, k),
        events[k as int],
    )
}

/// Cycles that have truly elapsed: counted wraps, a pending one, and the way
/// into the current period.
pub open spec fn elapsed(reload: nat, m: Machine) -> int {
    (m.wraps + if m.pending {
        1int
    } else {
        0int
    }) * (reload + 1) + (reload - m.val)
}

/// The points of a schedule at which one pass of the read protocol reads:
/// the wrap count, `VAL`, the wrap count, `PENDST`, `VAL`, the wrap count.
pub struct ReadPoints {
    pub pre: nat,
    pub before: nat,
    pub mid: nat,
    pub pend: nat,
    pub after: nat,
    pub post: nat,
}

/// The points are in order and within the schedule.
pub open spec fn ordered(p: ReadPoints, len: nat) -> bool {
    p.pre <= p.before <= p.mid <= p.pend <= p.after <= p.post <= len
}

/// What a pass that reads at these points sees.
pub open spec fn observed(reload: nat, start: Machine, events: Seq<Event>, p: ReadPoints) -> Observation {
    Observation {
        wraps_pre: state_at(reload, start, events, p.pre).wraps as u64,
        val_before: state_at(reload, start, events, p.before).val as u32,
        wraps_mid: state_at(reload, start, events, p.mid).wraps as u64,
        pending: state_at(reload, start, events, p.pend).pending,
        val_after: state_at(reload, start, events, p.after).val as u32,
        wraps_post: state_at(reload, start, events, p.post).wraps as u64,
    }
}

/// One step keeps `VAL` in range, never lowers the wrap count, keeps a
/// pending wrap pending unless it is serviced, and adds one elapsed cycle per
/// tick and none per service.
proof fn lemma_step(reload: nat, m: Machine, e: Event)
    requires
        m.val <= reload,
        permitted(m, e),
    ensures
        step(reload, m, e).val <= reload,
        step(reload, m, e).wraps >= m.wraps,
        step(reload, m, e).wraps == m.wraps <==> e is Tick,
        e is Tick ==> (m.pending ==> step(reload, m, e).pending),
        e is Tick ==> elapsed(reload, step(reload, m, e)) == elapsed(reload, m) + 1,
        e is Service ==> elapsed(reload, step(reload, m, e)) == elapsed(reload, m),
{
    let n = step(reload, m, e);
    match e {
        Event::Tick => {
            if m.val == 0 {
                assert((m.wraps + 1) * (reload + 1) == m.wraps * (reload + 1) + reload + 1)
                    by (nonlinear_arith);
            }
        },
        Event::Service => {
            assert((m.wraps + 1) * (reload + 1) == m.wraps * (reload + 1) + reload + 1)
                by (nonlinear_arith);
        },
    }
}

/// Along a valid schedule `VAL` stays in range, the wrap count never falls,
/// and elapsed cycles never fall. Where the wrap count is the same at `i`
/// and `j`, only ticks happened in between: elapsed cycles grew by `j - i`
/// and a wrap pending at `i` is still pending at `j`.
proof fn lemma_between(reload: nat, start: Machine, events: Seq<Event>, i: nat, j: nat)
    requires
        valid_schedule(reload, start, events),
        i <= j <= events.len(),
    ensures
        state_at(reload, start, events, j).val <= reload,
        state_at(reload, start, events, i).wraps <= state_at(reload, start, events, j).wraps,
        elapsed(reload, state_at(reload, start, events, i)) <= elapsed(
            reload,
            state_at(reload, start, events, j),
        ),
        state_at(reload, start, events, i).wraps == state_at(reload, start, events, j).wraps ==> {
            &&& elapsed(reload, state_at(reload, start, events, j)) == elapsed(
                reload,
                state_at(reload, start, events, i),
            ) + (j - i)
            &&& state_at(reload, start, events, i).pending ==> state_at(
                reload,
                start,
                events,
                j,
            ).pending
        },
    decreases j,
{
    if j == 0 {
    } else {
        let k = (j - 1) as nat;
        let prev = state_at(reload, start, events, k);
        if i == j {
            lemma_between(reload, start, events, 0, k);
            lemma_step(reload, prev, events[k as int]);
        } else {
            lemma_between(reload, start, events, i, k);
            assert(permitted(prev, events[k as int]));
            lemma_step(reload, prev, events[k as int]);
        }
    }
}

/// A pass during which the interrupt counted a wrap is never stable: the
/// protocol starts again rather than join counters and a counter value from
/// different wraps. This holds while the wrap count stays below `2^64`.
pub proof fn lemma_interrupted_pass_is_torn(
    reload: nat,
    start: Machine,
    events: Seq<Event>,
    p: ReadPoints,
    k: nat,
)
    requires
        valid_schedule(reload, start, events),
        ordered(p, events.len()),
        state_at(reload, start, events, events.len()).wraps <= u64::MAX,
        p.pre <= k < p.post,
        events[k as int] is Service,
    ensures
        !observed(reload, start, events, p).is_stable(),
{
    let len = events.len();
    lemma_between(reload, start, events, p.pre, k);
    lemma_between(reload, start, events, 0, k);
    assert(permitted(state_at(reload, start, events, k), events[k as int]));
    lemma_step(reload, state_at(reload, start, events, k), events[k as int]);
    assert(state_at(reload, start, events, k + 1) == step(
        reload,
        state_at(reload, start, events, k),
        events[k as int],
    ));
    lemma_between(reload, start, events, k + 1, p.post);
    lemma_between(reload, start, events, p.post, len);
    assert(state_at(reload, start, events, p.post).wraps > state_at(
        reload,
        start,
        events,
        p.pre,
    ).wraps);
}

/// A stable pass whose two `VAL` reads are less than a full wrap period
/// apart returns exactly the cycles elapsed at its second `VAL` read,
/// saturated at `u64::MAX`: the wrap it adds is exactly the one that is
/// pending then. This holds while the wrap count stays below `2^64`.
pub proof fn lemma_stable_pass_is_exact<H: SysTickSource>(
    t: Timer<H>,
    start: Machine,
    events: Seq<Event>,
    p: ReadPoints,
)
    requires
        t.wf(),
        valid_schedule(t.reload() as nat, start, events),
        ordered(p, events.len()),
        state_at(t.reload() as nat, start, events, events.len()).wraps <= u64::MAX,
        observed(t.reload() as nat, start, events, p).is_stable(),
        p.after - p.before <= t.reload(),
    ensures
        t.cycles_spec(observed(t.reload() as nat, start, events, p)) == saturated(
            elapsed(t.reload() as nat, state_at(t.reload() as nat, start, events, p.after)),
        ),
{
    let r = t.reload() as nat;
    let len = events.len();
    let o = observed(r, start, events, p);
    let m0 = state_at(r, start, events, p.pre);
    let m1 = state_at(r, start, events, p.before);
    let m2 = state_at(r, start, events, p.mid);
    let m3 = state_at(r, start, events, p.pend);
    let m4 = state_at(r, start, events, p.after);
    let m5 = state_at(r, start, events, p.post);
    lemma_between(r, start, events, p.pre, p.before);
    lemma_between(r, start, events, p.before, p.mid);
    lemma_between(r, start, events, p.mid, p.pend);
    lemma_between(r, start, events, p.pend, p.after);
    lemma_between(r, start, events, p.after, p.post);
    lemma_between(r, start, events, p.post, len);
    lemma_between(r, start, events, 0, p.before);
    lemma_between(r, start, events, p.before, p.pend);
    lemma_between(r, start, events, p.before, p.after);
    assert(m0.wraps == m2.wraps && m2.wraps == m5.wraps);
    let w = m0.wraps;
    assert(m1.wraps == w && m3.wraps == w && m4.wraps == w);
    assert(o.val_before == m1.val && o.val_after == m4.val);
    let d = p.after - p.before;
    assert(elapsed(r, m4) == elapsed(r, m1) + d);
    if m1.pending {
        assert(o.settled_wraps() == w + 1);
    } else if m4.pending {
        if !m3.pending {
            assert((w + 1) * (r + 1) == w * (r + 1) + r + 1) by (nonlinear_arith);
            assert(m4.val == r + 1 + m1.val - d);
            assert(o.val_after > o.val_before);
        }
        assert(o.settled_wraps() == w + 1);
    } else {
        assert(!m3.pending);
        assert(m4.val + d == m1.val);
        assert(o.settled_wraps() == w);
    }
    assert(o.settled_wraps() * (r + 1) + (r - m4.val) == elapsed(r, m4));
}

/// Monotonicity under any interleaving: of two passes of the read protocol
/// by one observer, the second starting after the first ends, each stable and
/// with its two `VAL` reads less than a wrap period apart, the second returns
/// no fewer ticks. This holds for every schedule of ticks and services in
/// which the interrupt is never held off for a whole wrap period, the wrap
/// count stays below `2^64`, and the ticks at the end fit in 64 bits.
pub proof fn lemma_readings_monotone<H: SysTickSource>(
    t: Timer<H>,
    start: Machine,
    events: Seq<Event>,
    first: ReadPoints,
    second: ReadPoints,
)
    requires
        t.wf(),
        valid_schedule(t.reload() as nat, start, events),
        ordered(first, events.len()),
        ordered(second, events.len()),
        first.post <= second.pre,
        state_at(t.reload() as nat, start, events, events.len()).wraps <= u64::MAX,
        observed(t.reload() as nat, start, events, first).is_stable(),
        observed(t.reload() as nat, start, events, second).is_stable(),
        first.after - first.before <= t.reload(),
        second.after - second.before <= t.reload(),
        (saturated(
            elapsed(t.reload() as nat, state_at(t.reload() as nat, start, events, events.len())),
        ) * t.scaler().multiplier) / pow2(t.scaler().shift as nat) as int <= u64::MAX,
    ensures
        t.ticks_spec(observed(t.reload() as nat, start, events, first)) <= t.ticks_spec(
            observed(t.reload() as nat, start, events, second),
        ),
{
    let r = t.reload() as nat;
    let len = events.len();
    lemma_stable_pass_is_exact(t, start, events, first);
    lemma_stable_pass_is_exact(t, start, events, second);
    lemma_between(r, start, events, first.after, second.after);
    lemma_between(r, start, events, second.after, len);
    let c1 = t.cycles_spec(observed(r, start, events, first));
    let c2 = t.cycles_spec(observed(r, start, events, second));
    let c_end = saturated(elapsed(r, state_at(r, start, events, len)));
    assert(c1 <= c2 && c2 <= c_end);
    let m = t.scaler().multiplier;
    let q = pow2(t.scaler().shift as nat) as int;
    vstd::arithmetic::power2::lemma_pow2_pos(t.scaler().shift as nat);
    vstd::arithmetic::mul::lemma_mul_inequality(c2, c_end, m as int);
    vstd::arithmetic::div_mod::lemma_div_is_ordered(c2 * m, c_end * m, q);
    lemma_scaled_monotone(m, t.scaler().shift, c1 as u64, c2 as u64);
}

} // verus!
