//! Conversion of source cycles to output ticks by a precomputed
//! multiplier and shift.
use vstd::arithmetic::div_mod::{
    lemma_div_is_ordered, lemma_div_multiples_vanish_quotient, lemma_fundamental_div_mod,
    lemma_hoist_over_denominator, lemma_small_mod,
};
use vstd::arithmetic::mul::lemma_mul_inequality;
use vstd::arithmetic::power2::{lemma_pow2_pos, lemma_pow2_strictly_increases, pow2};
use vstd::bits::{
    lemma_u128_shr_is_div, lemma_u64_pow2_no_overflow, lemma_u64_shl_is_mul, lemma_u64_shr_is_div,
};
use vstd::prelude::*;

verus! {

/// The least shift that is tried.
pub const MIN_SHIFT: u32 = 32;

/// The greatest shift that is tried.
pub const MAX_SHIFT: u32 = 63;

/// The value `compute_shift` returns when no shift gives a usable multiplier.
pub const NO_SHIFT: u32 = 64;

/// `2^64`, the modulus of a `u64`.
pub open spec fn u64_modulus() -> int {
    0x1_0000_0000_0000_0000
}

/// The multiplier that shift `s` gives: `floor(f_out * 2^s / f_src)`, in
/// unbounded integers.
pub open spec fn multiplier_for(f_out: u64, f_src: u64, s: u32) -> int {
    (f_out as int * pow2(s as nat) as int) / f_src as int
}

/// `s` is the least shift in `[MIN_SHIFT, MAX_SHIFT]` whose multiplier is
/// nonzero.
pub open spec fn is_least_shift(f_out: u64, f_src: u64, s: u32) -> bool {
    &&& MIN_SHIFT <= s <= MAX_SHIFT
    &&& multiplier_for(f_out, f_src, s) > 0
    &&& forall|t: u32| MIN_SHIFT <= t < s ==> #[trigger] multiplier_for(f_out, f_src, t) == 0
}

/// No shift in `[MIN_SHIFT, MAX_SHIFT]` gives a multiplier that is nonzero
/// and fits in 64 bits.
pub open spec fn no_shift_exists(f_out: u64, f_src: u64) -> bool {
    forall|t: u32|
        MIN_SHIFT <= t <= MAX_SHIFT ==> #[trigger] multiplier_for(f_out, f_src, t) == 0
            || multiplier_for(f_out, f_src, t) > u64::MAX
}

/// A larger shift never gives a smaller multiplier.
proof fn lemma_multiplier_grows(f_out: u64, f_src: u64, s: u32, t: u32)
    requires
        f_src > 0,
        s <= t,
    ensures
        multiplier_for(f_out, f_src, s) <= multiplier_for(f_out, f_src, t),
{
    if s < t {
        lemma_pow2_strictly_increases(s as nat, t as nat);
    }
    lemma_mul_inequality(pow2(s as nat) as int, pow2(t as nat) as int, f_out as int);
    assert(f_out as int * pow2(s as nat) as int == pow2(s as nat) as int * f_out as int) by (nonlinear_arith);
    assert(f_out as int * pow2(t as nat) as int == pow2(t as nat) as int * f_out as int) by (nonlinear_arith);
    lemma_div_is_ordered(
        f_out as int * pow2(s as nat) as int,
        f_out as int * pow2(t as nat) as int,
        f_src as int,
    );
}

/// The multiplier for shift `s`, computed in 128 bits.
fn multiplier_at(f_out: u64, f_src: u64, s: u32) -> (m: u128)
    requires
        f_src > 0,
        s <= MAX_SHIFT,
    ensures
        m == multiplier_for(f_out, f_src, s),
{
    proof {
        lemma_u64_pow2_no_overflow(s as nat);
        lemma_u64_shl_is_mul(1, s as u64);
    }
    let scale = 1u64 << (s as u64);
    proof {
        vstd::arithmetic::mul::lemma_mul_upper_bound(
            f_out as int, u64::MAX as int, scale as int, u64::MAX as int);
    }
    let wide = (f_out as u128) * (scale as u128);
    wide / (f_src as u128)
}

/// Output ticks for `c` cycles: `floor(c * m / 2^s)`, kept to its low 64 bits.
pub open spec fn scaled(m: u64, s: u32, c: u64) -> int {
    ((c as int * m as int) / pow2(s as nat) as int) % u64_modulus()
}

/// The 128-bit computation: `((c as u128 * m as u128) >> s) as u64`.
pub open spec fn widened(m: u64, s: u32, c: u64) -> u64 {
    (((c as int * m as int) as u128) >> s) as u64
}

/// `scaled` is the 128-bit computation, whatever the size of the product.
pub proof fn lemma_scaled_is_widened(m: u64, s: u32, c: u64)
    requires
        s <= MAX_SHIFT,
    ensures
        scaled(m, s, c) == widened(m, s, c) as int,
{
    vstd::arithmetic::mul::lemma_mul_upper_bound(c as int, u64::MAX as int, m as int, u64::MAX as int);
    assert(c as int * m as int >= 0) by (nonlinear_arith);
    let w = (c as int * m as int) as u128;
    assert(w == c as int * m as int);
    lemma_u128_shr_is_div(w, s as u128);
    assert(w >> s == w >> (s as u128)) by (bit_vector);
    let v = w >> s;
    assert((v as u64) as int == v as int % u64_modulus()) by (bit_vector);
}

/// Finds the least shift in `[MIN_SHIFT, MAX_SHIFT]` for which
/// `tick_hz * 2^shift / systick_freq` is nonzero; `NO_SHIFT` if there is none,
/// or if that multiplier does not fit in 64 bits (nor then does any larger).
pub fn compute_shift(tick_hz: u64, systick_freq: u64) -> (shift: u32)
    requires
        systick_freq > 0,
    ensures
        shift == NO_SHIFT || (is_least_shift(tick_hz, systick_freq, shift) && multiplier_for(
            tick_hz,
            systick_freq,
            shift,
        ) <= u64::MAX),
        shift == NO_SHIFT <==> no_shift_exists(tick_hz, systick_freq),
{
    let mut shift: u32 = MIN_SHIFT;
    let mut multiplier: u128 = multiplier_at(tick_hz, systick_freq, shift);
    while multiplier == 0 && shift < MAX_SHIFT
        invariant
            systick_freq > 0,
            MIN_SHIFT <= shift <= MAX_SHIFT,
            multiplier == multiplier_for(tick_hz, systick_freq, shift),
            forall|t: u32| MIN_SHIFT <= t < shift ==> #[trigger] multiplier_for(tick_hz, systick_freq, t) == 0,
        decreases MAX_SHIFT - shift,
    {
        shift += 1;
        multiplier = multiplier_at(tick_hz, systick_freq, shift);
    }
    if multiplier == 0 || multiplier > u64::MAX as u128 {
        proof {
            assert forall|t: u32| MIN_SHIFT <= t <= MAX_SHIFT implies #[trigger] multiplier_for(
                tick_hz,
                systick_freq,
                t,
            ) == 0 || multiplier_for(tick_hz, systick_freq, t) > u64::MAX by {
                if t >= shift {
                    lemma_multiplier_grows(tick_hz, systick_freq, shift, t);
                }
            }
        }
        NO_SHIFT
    } else {
        shift
    }
}

/// More cycles never give fewer ticks, as long as the larger count's ticks fit
/// in 64 bits.
pub proof fn lemma_scaled_monotone(m: u64, s: u32, c1: u64, c2: u64)
    requires
        c1 <= c2,
        (c2 as int * m as int) / pow2(s as nat) as int <= u64::MAX,
    ensures
        scaled(m, s, c1) <= scaled(m, s, c2),
{
    lemma_pow2_pos(s as nat);
    let q = pow2(s as nat) as int;
    lemma_mul_inequality(c1 as int, c2 as int, m as int);
    lemma_div_is_ordered(c1 as int * m as int, c2 as int * m as int, q);
    assert(c1 as int * m as int >= 0) by (nonlinear_arith);
    lemma_div_is_ordered(0, c1 as int * m as int, q);
    lemma_small_mod(((c1 as int * m as int) / q) as nat, u64_modulus() as nat);
    lemma_small_mod(((c2 as int * m as int) / q) as nat, u64_modulus() as nat);
}

/// With `m * f_src == f_out * q`, scaling by `m / q` is scaling by `f_out / f_src`.
proof fn lemma_exact_ratio(f_out: int, f_src: int, q: int, m: int, x: int)
    requires
        f_src > 0,
        q > 0,
        m >= 0,
        f_out >= 0,
        x >= 0,
        m * f_src == f_out * q,
    ensures
        (x * m) / q == (x * f_out) / f_src,
{
    assert(x * m >= 0 && x * f_out >= 0) by (nonlinear_arith)
        requires
            x >= 0,
            m >= 0,
            f_out >= 0,
    ;
    lemma_div_multiples_vanish_quotient(f_src, x * m, q);
    lemma_div_multiples_vanish_quotient(q, x * f_out, f_src);
    assert(f_src * (x * m) == q * (x * f_out)) by (nonlinear_arith)
        requires
            m * f_src == f_out * q,
    ;
    assert(f_src * q == q * f_src) by (nonlinear_arith);
}

/// Linear scaling: over an interval of `c` cycles that starts on a whole
/// output tick (`c_start * f_out` is a multiple of `f_src`), the clock advances
/// by exactly `floor(c * f_out / f_src)` ticks, whichever path `scale` takes.
/// This holds when the multiplier is exact (`f_out * 2^s` is a multiple of
/// `f_src`) and fits in 64 bits, and when the ticks at the end fit in 64 bits.
pub proof fn lemma_linear_scaling(f_out: u64, f_src: u64, s: u32, c_start: u64, c: u64)
    requires
        f_src > 0,
        s <= MAX_SHIFT,
        (f_out as int * pow2(s as nat) as int) % f_src as int == 0,
        multiplier_for(f_out, f_src, s) <= u64::MAX,
        (c_start as int * f_out as int) % f_src as int == 0,
        c_start + c <= u64::MAX,
        ((c_start + c) * f_out) / f_src as int <= u64::MAX,
    ensures
        scaled(multiplier_for(f_out, f_src, s) as u64, s, (c_start + c) as u64)
            - scaled(multiplier_for(f_out, f_src, s) as u64, s, c_start)
            == (c as int * f_out as int) / f_src as int,
{
    let q = pow2(s as nat) as int;
    lemma_pow2_pos(s as nat);
    let m = multiplier_for(f_out, f_src, s);
    assert(m == (f_out as int * q) / f_src as int);
    lemma_fundamental_div_mod(f_out as int * q, f_src as int);
    assert(m * f_src == f_out * q);
    assert(m >= 0) by {
        assert(f_out as int * q >= 0) by (nonlinear_arith)
            requires
                q > 0,
        ;
        lemma_div_is_ordered(0, f_out as int * q, f_src as int);
    }
    let c_end = (c_start + c) as u64;
    lemma_exact_ratio(f_out as int, f_src as int, q, m, c_end as int);
    lemma_exact_ratio(f_out as int, f_src as int, q, m, c_start as int);
    assert(c_start as int * f_out as int <= c_end as int * f_out as int) by {
        lemma_mul_inequality(c_start as int, c_end as int, f_out as int);
    }
    assert(c_start as int * f_out as int >= 0) by (nonlinear_arith);
    lemma_div_is_ordered(0, c_start as int * f_out as int, f_src as int);
    lemma_div_is_ordered(c_start as int * f_out as int, c_end as int * f_out as int, f_src as int);
    lemma_small_mod(((c_end as int * f_out as int) / f_src as int) as nat, u64_modulus() as nat);
    lemma_small_mod(((c_start as int * f_out as int) / f_src as int) as nat, u64_modulus() as nat);
    // Split the end count at the start, which falls on a multiple of f_src.
    let k = (c_start as int * f_out as int) / f_src as int;
    lemma_fundamental_div_mod(c_start as int * f_out as int, f_src as int);
    assert(c_start as int * f_out as int == k * f_src);
    assert(c_end as int * f_out as int == c as int * f_out as int + k * f_src) by (nonlinear_arith)
        requires
            c_end == c_start + c,
            c_start as int * f_out as int == k * f_src,
    ;
    lemma_hoist_over_denominator(c as int * f_out as int, k, f_src as nat);
}

/// A multiplier and shift that turn source cycles into output ticks.
#[derive(Clone, Copy, Debug, PartialEq, Eq)]
pub struct Scaler {
    pub multiplier: u64,
    pub shift: u32,
}

impl Scaler {
    /// The scaler for output frequency `output_hz` and source frequency
    /// `source_hz`, or `None` when no shift gives a multiplier that is
    /// nonzero and fits in 64 bits.
    pub fn new(output_hz: u64, source_hz: u64) -> (r: Option<Scaler>)
        requires
            source_hz > 0,
        ensures
            r is None <==> no_shift_exists(output_hz, source_hz),
            r matches Some(sc) ==> is_least_shift(output_hz, source_hz, sc.shift)
                && sc.multiplier == multiplier_for(output_hz, source_hz, sc.shift),
    {
        let shift = compute_shift(output_hz, source_hz);
        if shift == NO_SHIFT {
            None
        } else {
            let multiplier = multiplier_at(output_hz, source_hz, shift);
            Some(Scaler { multiplier: multiplier as u64, shift })
        }
    }

    /// Output ticks for `cycles` source cycles. The product is taken in 64 bits
    /// when it fits, and in 128 bits otherwise; both give `scaled`.
    pub fn scale(&self, cycles: u64) -> (ticks: u64)
        requires
            self.shift <= MAX_SHIFT,
        ensures
            ticks == scaled(self.multiplier, self.shift, cycles),
            ticks == widened(self.multiplier, self.shift, cycles),
    {
        let s = self.shift;
        proof {
            lemma_pow2_pos(s as nat);
            lemma_scaled_is_widened(self.multiplier, s, cycles);
        }
        match cycles.checked_mul(self.multiplier) {
            Some(product) => {
                proof {
                    lemma_u64_shr_is_div(product, s as u64);
                    assert(product >> s == product >> (s as u64)) by (bit_vector);
                    assert(product as int / pow2(s as nat) as int <= product) by {
                        vstd::arithmetic::div_mod::lemma_div_is_ordered_by_denominator(
                            product as int, 1, pow2(s as nat) as int);
                    }
                }
                product >> s
            },
            None => {
                proof {
                    vstd::arithmetic::mul::lemma_mul_upper_bound(
                        cycles as int, u64::MAX as int, self.multiplier as int, u64::MAX as int);
                }
                let wide = (cycles as u128) * (self.multiplier as u128);
                let shifted = wide >> s;
                proof {
                    lemma_u128_shr_is_div(wide, s as u128);
                    assert(wide >> s == wide >> (s as u128)) by (bit_vector);
                    assert((shifted as u64) as int == shifted as int % u64_modulus()) by (bit_vector);
                }
                shifted as u64
            },
        }
    }
}

} // verus!
