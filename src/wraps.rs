//! The wrap count as a pair of 32-bit halves.
use vstd::prelude::*;

verus! {

/// `2^32`, the weight of the high half.
pub open spec fn half_modulus() -> int {
    0x1_0000_0000
}

/// The 64-bit wrap count that a pair of halves stands for.
pub open spec fn composite(inner: u32, outer: u32) -> int {
    outer as int * half_modulus() + inner as int
}

/// The halves one wrap later: the low half steps on, wrapping, and the high
/// half steps on, wrapping, exactly when the low half goes from `u32::MAX` to 0.
pub open spec fn next_count(c: WrapCount) -> WrapCount {
    WrapCount {
        inner: ((c.inner + 1) % half_modulus()) as u32,
        outer: if c.inner == u32::MAX {
            ((c.outer + 1) % half_modulus()) as u32
        } else {
            c.outer
        },
    }
}

/// The halves of a wrap count: `inner` the low 32 bits, `outer` the high.
#[derive(Clone, Copy, Debug, PartialEq, Eq)]
pub struct WrapCount {
    pub inner: u32,
    pub outer: u32,
}

impl WrapCount {
    pub open spec fn view(&self) -> int {
        composite(self.inner, self.outer)
    }

    /// The count of zero wraps.
    pub fn zero() -> (r: WrapCount)
        ensures
            r@ == 0,
    {
        WrapCount { inner: 0, outer: 0 }
    }

    /// The count one wrap later.
    pub fn advanced(&self) -> (r: WrapCount)
        ensures
            r == next_count(*self),
            r@ == (self@ + 1) % crate::scaler::u64_modulus(),
    {
        proof {
            lemma_next_count(*self);
        }
        let inner = self.inner.wrapping_add(1);
        let outer = if self.inner == u32::MAX {
            self.outer.wrapping_add(1)
        } else {
            self.outer
        };
        WrapCount { inner, outer }
    }

    /// The count as one 64-bit value: `(outer << 32) | inner`.
    pub fn composite(&self) -> (r: u64)
        ensures
            r == self@,
    {
        let inner = self.inner as u64;
        let outer = self.outer as u64;
        let r = (outer << 32u64) | inner;
        proof {
            assert((outer << 32u64) | inner == outer * 0x1_0000_0000 + inner) by (bit_vector)
                requires
                    outer <= 0xffff_ffff,
                    inner <= 0xffff_ffff,
            ;
        }
        r
    }
}

/// One wrap adds one to the count, modulo `2^64`.
pub proof fn lemma_next_count(c: WrapCount)
    ensures
        next_count(c)@ == (c@ + 1) % crate::scaler::u64_modulus(),
{
    if c.inner == u32::MAX && c.outer == u32::MAX {
        assert(next_count(c)@ == 0);
        assert(c@ + 1 == crate::scaler::u64_modulus());
    } else {
        assert(c@ + 1 < crate::scaler::u64_modulus());
    }
}

/// The count after `n` wraps from zero.
pub open spec fn count_after(n: nat) -> WrapCount
    decreases n,
{
    if n == 0 {
        WrapCount { inner: 0, outer: 0 }
    } else {
        next_count(count_after((n - 1) as nat))
    }
}

/// After `n` wraps from zero, each advancing the halves as `advanced` does,
/// the pair stands for `n` modulo `2^64`.
pub proof fn lemma_count_after(n: nat)
    ensures
        count_after(n)@ == (n as int) % crate::scaler::u64_modulus(),
    decreases n,
{
    if n > 0 {
        lemma_count_after((n - 1) as nat);
        let prev = count_after((n - 1) as nat);
        lemma_next_count(prev);
        assert(((n - 1) % 0x1_0000_0000_0000_0000 + 1) % 0x1_0000_0000_0000_0000
            == n % 0x1_0000_0000_0000_0000) by {
            vstd::arithmetic::div_mod::lemma_add_mod_noop(
                (n - 1) as int, 1, 0x1_0000_0000_0000_0000);
        }
    }
}

/// When both halves are at `u32::MAX`, one more wrap leaves both at zero.
pub proof fn lemma_full_count_wraps_to_zero()
    ensures
        next_count(WrapCount { inner: u32::MAX, outer: u32::MAX }) == (WrapCount { inner: 0, outer: 0 }),
{
}

} // verus!
