//! A time representation that works nicely with a 24-bit real-time counter.
//!
//! The same type `Time` serves for both instants and durations. The low 24
//! bits count hardware ticks of a 32,768 Hz clock; the remaining high 40 bits
//! count overflows of the hardware counter.

use vstd::prelude::*;

verus! {

/// Frequency of the low-frequency clock in Hz (32,768 = 1 << 15).
pub const FREQ: u32 = 0x8000;
/// Number of ticks in one overflow epoch of the 24-bit hardware counter.
pub const EPOCH_TICKS: u64 = 0x0100_0000;
/// Mask selecting the tick bits of a time value (after truncation to u32).
pub const TICK_MASK: u32 = 0x00ff_ffff;
/// Nanoseconds per tick, rounded down (1_000_000_000 / FREQ).
pub const NANOS_PER_TICK: u32 = 30517;

/// The tick part of a raw 64-bit time value: its low 24 bits.
pub open spec fn ticks_of(bits: u64) -> u64 {
    bits % EPOCH_TICKS
}

/// The overflow part of a raw 64-bit time value: its high 40 bits, kept in
/// place (low 24 bits zero).
pub open spec fn overflows_of(bits: u64) -> u64 {
    (bits - ticks_of(bits)) as u64
}

/// A duration/instant, counted in ticks and overflows of the hardware counter.
#[derive(Debug, Copy, Clone, Eq, PartialEq, Structural)]
pub struct Time {
    bits: u64,
}

impl Time {
    /// The raw 64-bit value, as a spec-level view.
    pub closed spec fn spec_bits(self) -> u64 {
        self.bits
    }

    pub fn from_bits(bits: u64) -> (t: Self)
        ensures
            t.spec_bits() == bits,
    {
        Time { bits }
    }

    pub fn bits(&self) -> (r: u64)
        ensures
            r == self.spec_bits(),
    {
        self.bits
    }

    /// The tick count within the current overflow epoch (low 24 bits).
    pub fn ticks(&self) -> (r: u32)
        ensures
            r == ticks_of(self.spec_bits()),
            r < EPOCH_TICKS,
    {
        proof {
            lemma_tick_mask(self.bits);
        }
        (self.bits as u32) & TICK_MASK
    }

    /// Overwrite the tick part of the time from a fresh hardware counter read.
    ///
    /// Only the bottom 24 bits may be set in `ticks`.
    pub fn set_ticks(&mut self, ticks: u32)
        requires
            ticks < EPOCH_TICKS,
        ensures
            final(self).spec_bits() == overflows_of(old(self).spec_bits()) + ticks,
    {
        proof {
            lemma_overflow_mask(self.bits);
            lemma_or_low_bits(self.bits & (!(TICK_MASK as u64)), ticks);
        }
        self.bits = (self.bits & (!(TICK_MASK as u64))) | (ticks as u64);
    }

    /// Advance the overflow count by one epoch; the tick part is unchanged.
    pub fn increment_overflows(&mut self)
        requires
            old(self).spec_bits() + EPOCH_TICKS <= u64::MAX,
        ensures
            final(self).spec_bits() == old(self).spec_bits() + EPOCH_TICKS,
    {
        self.bits = self.bits + EPOCH_TICKS;
    }

    /// The overflow part of the time (high 40 bits, kept in place).
    pub fn overflows(&self) -> (r: u64)
        ensures
            r == overflows_of(self.spec_bits()),
    {
        proof {
            lemma_overflow_mask(self.bits);
        }
        self.bits & (!(TICK_MASK as u64))
    }

    /// Sum of two times (instant + duration).
    pub fn add(self, rhs: Self) -> (r: Self)
        requires
            self.spec_bits() + rhs.spec_bits() <= u64::MAX,
        ensures
            r.spec_bits() == self.spec_bits() + rhs.spec_bits(),
    {
        Time { bits: self.bits + rhs.bits }
    }

    /// Difference of two times (instant - instant, or duration - duration).
    pub fn sub(self, rhs: Self) -> (r: Self)
        requires
            rhs.spec_bits() <= self.spec_bits(),
        ensures
            r.spec_bits() == self.spec_bits() - rhs.spec_bits(),
    {
        Time { bits: self.bits - rhs.bits }
    }

    /// Build a time value from a duration given as whole seconds and
    /// subsecond nanoseconds, scaling to ticks of the 32,768 Hz clock.
    /// The subsecond part is rounded down to whole ticks.
    pub fn from_duration(secs: u64, subsec_nanos: u32) -> (t: Self)
        requires
            subsec_nanos < 1_000_000_000,
            secs * FREQ + subsec_nanos / NANOS_PER_TICK <= u64::MAX,
        ensures
            t.spec_bits() == secs * FREQ + subsec_nanos / NANOS_PER_TICK,
    {
        let subsec_ticks: u32 = subsec_nanos / NANOS_PER_TICK;
        assert(secs << 15 == secs * 0x8000) by (bit_vector)
            requires
                secs * 0x8000 <= u64::MAX,
        ;
        let sec_ticks: u64 = secs << 15;
        Time { bits: sec_ticks + subsec_ticks as u64 }
    }

    /// The duration this time value stands for, as whole seconds and
    /// subsecond nanoseconds (the inverse scaling of `from_duration`).
    pub fn to_duration(self) -> (d: (u64, u32))
        ensures
            d.0 == self.spec_bits() / (FREQ as u64),
            d.1 == (self.spec_bits() % (FREQ as u64)) * NANOS_PER_TICK,
    {
        let b = self.bits;
        assert(b >> 15 == b / 0x8000u64) by (bit_vector);
        let secs: u64 = b >> 15;
        assert(((b as u32) & 0x7fffu32) == b % 0x8000u64) by (bit_vector);
        let subsec_ticks: u32 = (b as u32) & (FREQ - 1);
        assert(subsec_ticks * NANOS_PER_TICK <= u32::MAX) by (nonlinear_arith)
            requires
                subsec_ticks < 0x8000,
                NANOS_PER_TICK == 30517,
        ;
        (secs, subsec_ticks * NANOS_PER_TICK)
    }
}

/// The tick part and the overflow part of a raw time value partition its
/// bits exactly: or-ing the low 24 bits back onto the high 40 bits
/// reconstructs the whole value.
pub proof fn lemma_time_parts_round_trip(bits: u64)
    ensures
        ticks_of(bits) | overflows_of(bits) == bits,
        ticks_of(bits) + overflows_of(bits) == bits,
        ticks_of(bits) < EPOCH_TICKS,
        overflows_of(bits) % EPOCH_TICKS == 0,
{
    lemma_overflow_mask(bits);
    assert((bits % 0x0100_0000u64) | (bits & (!0x00ff_ffffu64)) == bits) by (bit_vector);
    assert((bits & (!0x00ff_ffffu64)) % 0x0100_0000u64 == 0) by (bit_vector);
}

/// The overflow part of any time value leaves room for a full epoch of ticks.
pub proof fn lemma_overflows_bound(b: u64)
    ensures
        overflows_of(b) <= 0xffff_ffff_ff00_0000u64,
{
    lemma_overflow_mask(b);
    assert(b & (!0x00ff_ffffu64) <= 0xffff_ffff_ff00_0000u64) by (bit_vector);
}

proof fn lemma_tick_mask(b: u64)
    ensures
        (b as u32) & 0x00ff_ffffu32 == b % 0x0100_0000u64,
{
    assert((b as u32) & 0x00ff_ffffu32 == b % 0x0100_0000u64) by (bit_vector);
}

proof fn lemma_overflow_mask(b: u64)
    ensures
        b & (!0x00ff_ffffu64) == overflows_of(b),
{
    assert((b & (!0x00ff_ffffu64)) + (b % 0x0100_0000u64) == b) by (bit_vector);
}

proof fn lemma_or_low_bits(high: u64, t: u32)
    requires
        high % 0x0100_0000u64 == 0,
        t < 0x0100_0000,
    ensures
        high | (t as u64) == high + t,
{
    assert(high | (t as u64) == high + t) by (bit_vector)
        requires
            high % 0x0100_0000u64 == 0,
            t < 0x0100_0000u32,
    ;
}

} // verus!
