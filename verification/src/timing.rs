//! Conversion of VGM wait times (44.1 kHz samples) into native chip frames
//! without accumulating rounding drift.

use vstd::prelude::*;
use vstd::arithmetic::div_mod::{lemma_fundamental_div_mod, lemma_fundamental_div_mod_converse};

verus! {

/// The VGM timebase: waits are counted in samples at this rate.
pub const VGM_RATE: u64 = 44_100;

/// Carries the fractional part of a frame (in units of 1/44100 of a native
/// frame) from one wait to the next.
pub struct TimingAccumulator {
    remainder: u128,
}

impl View for TimingAccumulator {
    type V = nat;

    /// The carried remainder (always below `VGM_RATE`).
    closed spec fn view(&self) -> nat {
        (self.remainder % (VGM_RATE as u128)) as nat
    }
}

/// The carried remainder of an accumulator is below `VGM_RATE`.
pub proof fn lemma_remainder_below_rate(t: TimingAccumulator)
    ensures
        t@ < VGM_RATE,
{
}

/// One wait: the frames it completes and the remainder it carries on, for a
/// carried remainder `rem`, a wait of `wait` samples and a native rate `rate`.
pub open spec fn timing_step(rem: int, wait: int, rate: int) -> (int, int) {
    ((rem + wait * rate) / (VGM_RATE as int), (rem + wait * rate) % (VGM_RATE as int))
}

/// The sum of a sequence of waits.
pub open spec fn total_waits(waits: Seq<u64>) -> int
    decreases waits.len(),
{
    if waits.len() == 0 {
        0
    } else {
        total_waits(waits.drop_last()) + waits.last()
    }
}

/// The frames completed in all, and the remainder left, after the waits
/// `waits` are fed one by one to an accumulator that carries `rem`.
pub open spec fn accumulate_frames(rem: int, waits: Seq<u64>, rate: int) -> (int, int)
    decreases waits.len(),
{
    if waits.len() == 0 {
        (0, rem)
    } else {
        let prev = accumulate_frames(rem, waits.drop_last(), rate);
        let step = timing_step(prev.1, waits.last() as int, rate);
        (prev.0 + step.0, step.1)
    }
}

impl TimingAccumulator {
    #[verifier::type_invariant]
    spec fn remainder_below_rate(&self) -> bool {
        self.remainder < VGM_RATE as u128
    }

    /// A fresh accumulator carries nothing.
    pub fn new() -> (t: Self)
        ensures
            t@ == 0,
    {
        Self { remainder: 0 }
    }

    /// Converts a wait of `wait_samples` VGM samples into the number of
    /// native frames it completes at `native_rate`, carrying the rest.
    /// The frame count is truncated to `usize` as the original cast does.
    pub fn frames_for_wait(&mut self, wait_samples: u64, native_rate: u32) -> (n: usize)
        ensures
            old(self)@ < VGM_RATE,
            final(self)@ < VGM_RATE,
            final(self)@ == timing_step(old(self)@ as int, wait_samples as int, native_rate as int).1,
            n == timing_step(old(self)@ as int, wait_samples as int, native_rate as int).0 as usize,
    {
        proof {
            use_type_invariant(&*self);
        }
        let w = wait_samples as u128;
        let r = native_rate as u128;
        assert(w * r <= 0xffff_ffff_ffff_ffff * 0xffff_ffffu128) by (nonlinear_arith)
            requires
                w <= 0xffff_ffff_ffff_ffff,
                r <= 0xffff_ffff,
        ;
        let total = self.remainder + w * r;
        let frames = total / 44_100;
        self.remainder = total % 44_100;
        frames as usize
    }
}

/// Helper for the drift law: after any sequence of waits the frames completed
/// and the remainder together account exactly for every sample fed in.
proof fn lemma_accumulate_exact(rem: int, waits: Seq<u64>, rate: int)
    requires
        0 <= rem < VGM_RATE,
        rate >= 0,
    ensures
        accumulate_frames(rem, waits, rate).0 * VGM_RATE + accumulate_frames(rem, waits, rate).1
            == rem + total_waits(waits) * rate,
        0 <= accumulate_frames(rem, waits, rate).1 < VGM_RATE,
    decreases waits.len(),
{
    if waits.len() > 0 {
        let prev_waits = waits.drop_last();
        lemma_accumulate_exact(rem, prev_waits, rate);
        let prev = accumulate_frames(rem, prev_waits, rate);
        let w = waits.last() as int;
        let t = prev.1 + w * rate;
        lemma_fundamental_div_mod(t, VGM_RATE as int);
        assert((total_waits(prev_waits) + w) * rate == total_waits(prev_waits) * rate + w * rate)
            by (nonlinear_arith);
        assert(w * rate >= 0) by (nonlinear_arith)
            requires
                w >= 0,
                rate >= 0,
        ;
    }
}

/// No drift: feeding a fresh accumulator any sequence of waits completes
/// exactly `floor(total * rate / 44100)` frames in all, and carries the rest,
/// however the total is split into waits.
pub proof fn lemma_timing_no_drift(waits: Seq<u64>, rate: u32)
    ensures
        accumulate_frames(0, waits, rate as int).0 == (total_waits(waits) * rate) / (VGM_RATE as int),
        accumulate_frames(0, waits, rate as int).1 == (total_waits(waits) * rate) % (VGM_RATE as int),
{
    lemma_accumulate_exact(0, waits, rate as int);
    let a = accumulate_frames(0, waits, rate as int);
    lemma_fundamental_div_mod_converse(total_waits(waits) * rate, VGM_RATE as int, a.0, a.1);
}

} // verus!
