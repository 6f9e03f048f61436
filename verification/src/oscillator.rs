//! The waveform engine: a pure map from phase, frequency, FM input and
//! duty cycle to one fixed-point sample.
//!
//! Phase is a sample count; frequency is pre-normalized to cycles per
//! sample, so the waveform position within a cycle is the fraction
//! `(freq * t + fm) mod 1`. The sine is a folded quadratic: exact zeros
//! at phase 0 and 1/2, peaks of exactly full scale at 1/4 and 3/4.

use vstd::prelude::*;
use crate::fixed::{FP_ONE, FP_HALF, qdiv, iabs, muldiv_q, div_q, wrap_fp, lemma_qdiv_bound};

verus! {

/// Largest phase-accumulator value an oscillator accepts: about 2^36
/// samples, far beyond any real session, so phase arithmetic stays
/// well inside `i64`.
pub const MAX_PHASE: i64 = 68719476736;

/// Largest magnitude accepted for a frequency-modulation input.
pub const MAX_FM: i64 = 1099511627776;

/// The closed set of waveform kinds.
#[derive(Debug, Clone, Copy, PartialEq, Eq, Structural)]
pub enum Waveform {
    Sine,
    Square,
    Sawtooth,
    Triangle,
    Noise,
}

/// The waveform selected by a fixed-point control value in `[0, 1)`:
/// the unit interval is split into five equal steps, in declaration
/// order; anything outside the steps falls back to `Sine`.
pub open spec fn spec_waveform_from(v: int) -> Waveform {
    let idx = qdiv(v * 5, FP_ONE as int);
    if idx == 1 {
        Waveform::Square
    } else if idx == 2 {
        Waveform::Sawtooth
    } else if idx == 3 {
        Waveform::Triangle
    } else if idx == 4 {
        Waveform::Noise
    } else {
        Waveform::Sine
    }
}

impl Waveform {
    /// Decodes a waveform selector control value.
    pub fn from_data(v: i64) -> (w: Waveform)
        ensures
            w == spec_waveform_from(v as int),
    {
        let idx = muldiv_q(v, 5, FP_ONE);
        if idx == 1 {
            Waveform::Square
        } else if idx == 2 {
            Waveform::Sawtooth
        } else if idx == 3 {
            Waveform::Triangle
        } else if idx == 4 {
            Waveform::Noise
        } else {
            Waveform::Sine
        }
    }
}

/// The rising half-wave of the folded-quadratic sine: for `q` in
/// `[0, FP_HALF]`, a parabola that is 0 at both ends and exactly
/// `FP_ONE` at the midpoint `FP_HALF / 2`.
pub open spec fn spec_parab(q: int) -> int {
    qdiv(16 * q * (FP_HALF - q), FP_ONE as int)
}

/// The folded-quadratic sine over one cycle: the parabola on the first
/// half, its negation on the second.
pub open spec fn spec_sine(frac: int) -> int {
    if frac < FP_HALF {
        spec_parab(frac)
    } else {
        -spec_parab(frac - FP_HALF)
    }
}

/// The parabola half-wave stays within `[0, FP_ONE]`, vanishes at its
/// end points, and is strictly positive strictly between them.
pub proof fn lemma_parab_bounds(q: int)
    requires
        0 <= q <= FP_HALF,
    ensures
        0 <= spec_parab(q) <= FP_ONE,
        q == 0 ==> spec_parab(q) == 0,
        q == FP_HALF ==> spec_parab(q) == 0,
        0 < q < FP_HALF ==> spec_parab(q) > 0,
{
    assert(0 <= 16 * q * (FP_HALF - q) <= FP_ONE * FP_ONE) by (nonlinear_arith)
        requires
            0 <= q <= FP_HALF && FP_ONE == 2 * FP_HALF,
    ;
    assert(0 <= qdiv(16 * q * (FP_HALF - q), FP_ONE as int) <= FP_ONE) by (nonlinear_arith)
        requires
            0 <= 16 * q * (FP_HALF - q) <= FP_ONE * FP_ONE && FP_ONE > 0,
    ;
    if q == 0 || q == FP_HALF {
        assert(16 * q * (FP_HALF - q) == 0) by (nonlinear_arith)
            requires
                q == 0 || q == FP_HALF,
        ;
    }
    if 0 < q < FP_HALF {
        assert(16 * q * (FP_HALF - q) >= FP_ONE) by (nonlinear_arith)
            requires
                1 <= q <= FP_HALF - 1 && FP_HALF == 8388608 && FP_ONE == 16777216,
        ;
        assert(qdiv(16 * q * (FP_HALF - q), FP_ONE as int) >= 1) by (nonlinear_arith)
            requires
                16 * q * (FP_HALF - q) >= FP_ONE && FP_ONE > 0,
        ;
    }
}

/// Between consecutive zero crossings the sine's sign is constant:
/// strictly positive over the first half cycle, strictly negative over
/// the second.
pub proof fn lemma_sine_sign(frac: int)
    requires
        0 <= frac < FP_ONE,
    ensures
        0 < frac < FP_HALF ==> spec_sine(frac) > 0,
        FP_HALF < frac < FP_ONE ==> spec_sine(frac) < 0,
{
    if 0 < frac < FP_HALF {
        lemma_parab_bounds(frac);
    }
    if FP_HALF < frac < FP_ONE {
        lemma_parab_bounds(frac - FP_HALF);
    }
}

/// Evaluates the folded-quadratic sine at a phase fraction.
pub fn sine_fp(frac: i64) -> (r: i64)
    requires
        0 <= frac < FP_ONE,
    ensures
        r == spec_sine(frac as int),
        -FP_ONE <= r <= FP_ONE,
{
    if frac < FP_HALF {
        proof {
            lemma_parab_bounds(frac as int);
            assert(iabs(((16 * frac) as int) * ((FP_HALF - frac) as int)) <= i64::MAX * (
            FP_ONE as int)) by (nonlinear_arith)
                requires
                    0 <= frac < FP_HALF && 0 < FP_ONE < i64::MAX && FP_ONE == 2 * FP_HALF,
            ;
        }
        muldiv_q(16 * frac, FP_HALF - frac, FP_ONE)
    } else {
        let q = frac - FP_HALF;
        proof {
            lemma_parab_bounds(q as int);
            assert(iabs(((16 * q) as int) * ((FP_HALF - q) as int)) <= i64::MAX * (FP_ONE as int))
                by (nonlinear_arith)
                requires
                    0 <= q < FP_HALF && 0 < FP_ONE < i64::MAX && FP_ONE == 2 * FP_HALF,
            ;
        }
        let p = muldiv_q(16 * q, FP_HALF - q, FP_ONE);
        -p
    }
}

/// A noise sample forced into `[-FP_ONE, FP_ONE]`.
pub open spec fn spec_clamp_sample(v: int) -> int {
    if v < -FP_ONE {
        -FP_ONE as int
    } else if v > FP_ONE {
        FP_ONE as int
    } else {
        v
    }
}

/// The waveform position within a cycle at sample `t`: the fractional
/// part of `freq * t + fm`, in fixed point.
pub open spec fn spec_phase_frac(t: int, freq: int, fm: int) -> int {
    (freq * t + fm) % (FP_ONE as int)
}

/// One sample of waveform `w` at sample count `t`: frequency `freq`
/// (cycles per sample), phase-modulation input `fm` (cycles) and duty
/// cycle `duty`, all in fixed point. `noise` is the externally drawn
/// random value used by `Noise`, clamped to full scale and independent
/// of phase and frequency.
pub open spec fn spec_oscillate(w: Waveform, t: int, freq: int, fm: int, duty: int, noise: int)
    -> int {
    let frac = spec_phase_frac(t, freq, fm);
    match w {
        Waveform::Sine => spec_sine(frac),
        Waveform::Square => if frac < duty {
            FP_HALF as int
        } else {
            -FP_HALF as int
        },
        Waveform::Sawtooth => 2 * frac - FP_ONE,
        Waveform::Triangle => {
            let saw = 2 * ((2 * frac) % (FP_ONE as int));
            if frac < FP_HALF {
                saw - FP_ONE
            } else {
                FP_ONE - saw
            }
        },
        Waveform::Noise => spec_clamp_sample(noise),
    }
}

/// Every oscillator sample lies within one full scale of zero.
pub proof fn lemma_oscillate_bounds(w: Waveform, t: int, freq: int, fm: int, duty: int, noise: int)
    requires
        0 <= freq < FP_ONE,
        0 <= t,
        iabs(fm) <= MAX_FM,
    ensures
        -FP_ONE <= spec_oscillate(w, t, freq, fm, duty, noise) <= FP_ONE,
{
    let frac = spec_phase_frac(t, freq, fm);
    assert(0 <= frac < FP_ONE) by (nonlinear_arith)
        requires
            frac == (freq * t + fm) % (FP_ONE as int) && FP_ONE > 0,
    ;
    match w {
        Waveform::Sine => {
            if frac < FP_HALF {
                lemma_parab_bounds(frac);
            } else {
                lemma_parab_bounds(frac - FP_HALF);
            }
        },
        Waveform::Square => {},
        Waveform::Sawtooth => {},
        Waveform::Triangle => {
            assert(0 <= (2 * frac) % (FP_ONE as int) < FP_ONE) by (nonlinear_arith)
                requires
                    FP_ONE > 0,
            ;
        },
        Waveform::Noise => {},
    }
}

/// Frequency accuracy of the sine oscillator: configured for exactly one
/// cycle per `k` samples (`freq * k == FP_ONE`) and with no FM input,
/// the signal is exactly zero at every multiple of `k / 2` samples:
/// `0, k/2, k, 3k/2, ...`.
pub proof fn lemma_sine_zero_crossings(freq: int, k: int, n: int, duty: int, noise: int)
    requires
        k > 0,
        k % 2 == 0,
        freq * k == FP_ONE,
        n >= 0,
    ensures
        spec_oscillate(Waveform::Sine, n * (k / 2), freq, 0, duty, noise) == 0,
{
    let h = k / 2;
    let t = n * h;
    assert(k == 2 * h) by {
        vstd::arithmetic::div_mod::lemma_fundamental_div_mod(k, 2);
    }
    assert(2 * (freq * h) == freq * (2 * h)) by (nonlinear_arith);
    assert(freq * h == FP_HALF);
    let m = n / 2;
    let r = n % 2;
    assert(n == 2 * m + r && 0 <= r < 2) by {
        vstd::arithmetic::div_mod::lemma_fundamental_div_mod(n, 2);
    }
    assert(freq * t == FP_ONE * m + r * FP_HALF) by (nonlinear_arith)
        requires
            t == n * h && n == 2 * m + r && freq * h == FP_HALF && FP_ONE == 2 * FP_HALF,
    ;
    vstd::arithmetic::div_mod::lemma_mod_multiples_vanish(m, r * FP_HALF, FP_ONE as int);
    assert((r * (FP_HALF as int)) % (FP_ONE as int) == r * FP_HALF) by (nonlinear_arith)
        requires
            0 <= r < 2 && FP_ONE == 2 * FP_HALF && FP_HALF > 0,
    ;
    let frac = spec_phase_frac(t, freq, 0);
    assert(frac == r * FP_HALF);
    lemma_parab_bounds(0);
    assert(spec_parab(0) == 0);
    if r == 0 {
        assert(spec_oscillate(Waveform::Sine, t, freq, 0, duty, noise) == spec_parab(0));
    } else {
        assert(frac == FP_HALF);
        assert(spec_oscillate(Waveform::Sine, t, freq, 0, duty, noise) == -spec_parab(0));
    }
}

/// Computes the phase fraction at sample `t`.
pub fn phase_frac(t: i64, freq: i64, fm: i64) -> (r: i64)
    requires
        0 <= t <= MAX_PHASE,
        0 <= freq < FP_ONE,
        -MAX_FM <= fm <= MAX_FM,
    ensures
        r == spec_phase_frac(t as int, freq as int, fm as int),
        0 <= r < FP_ONE,
{
    proof {
        assert(0 <= (freq as int) * (t as int) <= FP_ONE * MAX_PHASE) by (nonlinear_arith)
            requires
                0 <= freq < FP_ONE && 0 <= t <= MAX_PHASE,
        ;
    }
    let ph: i64 = muldiv_q(freq, t, 1) + fm;
    wrap_fp(ph, FP_ONE)
}

/// Evaluates one oscillator sample.
pub fn oscillate(w: Waveform, t: i64, freq: i64, fm: i64, duty: i64, noise: i64) -> (r: i64)
    requires
        0 <= t <= MAX_PHASE,
        0 <= freq < FP_ONE,
        -MAX_FM <= fm <= MAX_FM,
    ensures
        r == spec_oscillate(w, t as int, freq as int, fm as int, duty as int, noise as int),
        -FP_ONE <= r <= FP_ONE,
{
    proof {
        lemma_oscillate_bounds(
            w,
            t as int,
            freq as int,
            fm as int,
            duty as int,
            noise as int,
        );
    }
    let frac = phase_frac(t, freq, fm);
    match w {
        Waveform::Sine => sine_fp(frac),
        Waveform::Square => if frac < duty {
            FP_HALF
        } else {
            -FP_HALF
        },
        Waveform::Sawtooth => 2 * frac - FP_ONE,
        Waveform::Triangle => {
            let saw = 2 * wrap_fp(2 * frac, FP_ONE);
            if frac < FP_HALF {
                saw - FP_ONE
            } else {
                FP_ONE - saw
            }
        },
        Waveform::Noise => {
            if noise < -FP_ONE {
                -FP_ONE
            } else if noise > FP_ONE {
                FP_ONE
            } else {
                noise
            }
        },
    }
}

/// The fixed-point ratio `2^(r/12)` for one semitone step `r` in
/// `[0, 11]` (equal temperament).
pub open spec fn spec_semitone(r: int) -> int {
    if r == 0 {
        16777216
    } else if r == 1 {
        17774841
    } else if r == 2 {
        18831788
    } else if r == 3 {
        19951584
    } else if r == 4 {
        21137967
    } else if r == 5 {
        22394896
    } else if r == 6 {
        23726566
    } else if r == 7 {
        25137421
    } else if r == 8 {
        26632170
    } else if r == 9 {
        28215801
    } else if r == 10 {
        29893600
    } else {
        31671166
    }
}

fn semitone(r: i64) -> (v: i64)
    requires
        0 <= r <= 11,
    ensures
        v == spec_semitone(r as int),
        16777216 <= v < 33554432,
{
    if r == 0 {
        16777216
    } else if r == 1 {
        17774841
    } else if r == 2 {
        18831788
    } else if r == 3 {
        19951584
    } else if r == 4 {
        21137967
    } else if r == 5 {
        22394896
    } else if r == 6 {
        23726566
    } else if r == 7 {
        25137421
    } else if r == 8 {
        26632170
    } else if r == 9 {
        28215801
    } else if r == 10 {
        29893600
    } else {
        31671166
    }
}

/// `2^e` for small exponents.
pub open spec fn spec_pow2_small(e: int) -> int
    decreases e,
{
    if e <= 0 {
        1
    } else {
        2 * spec_pow2_small(e - 1)
    }
}

fn pow2_small(e: i64) -> (v: i64)
    requires
        0 <= e <= 10,
    ensures
        v == spec_pow2_small(e as int),
        1 <= v <= 1024,
{
    proof {
        reveal_with_fuel(spec_pow2_small, 11);
    }
    if e == 0 {
        1
    } else if e == 1 {
        2
    } else if e == 2 {
        4
    } else if e == 3 {
        8
    } else if e == 4 {
        16
    } else if e == 5 {
        32
    } else if e == 6 {
        64
    } else if e == 7 {
        128
    } else if e == 8 {
        256
    } else if e == 9 {
        512
    } else {
        1024
    }
}

/// The oscillator frequency of a MIDI pitch, normalized to cycles per
/// sample: `440 Hz * 2^((pitch - 69) / 12) / rate`, computed exactly in
/// fixed point from the semitone table and clamped below one cycle per
/// sample. Writing `pitch + 3 == 12 * oct + step` with `0 <= step < 12`,
/// the frequency in Hz is `440 * semitone(step) * 2^oct / 2^6`.
pub open spec fn spec_pitch_freq(pitch: int, rate: int) -> int {
    let oct = (pitch + 3) / 12;
    let step = (pitch + 3) % 12;
    let hz_fp = qdiv(440 * spec_semitone(step) * spec_pow2_small(oct), 64);
    let cs = qdiv(hz_fp, rate);
    if cs >= FP_ONE {
        FP_ONE - 1
    } else {
        cs
    }
}

/// Computes a pitch's frequency in cycles per sample.
pub fn pitch_freq(pitch: i64, rate: u32) -> (f: i64)
    requires
        0 <= pitch <= 127,
        rate >= 1,
    ensures
        f == spec_pitch_freq(pitch as int, rate as int),
        0 <= f < FP_ONE,
{
    let oct: i64 = (pitch + 3) / 12;
    let step: i64 = (pitch + 3) % 12;
    let semi = semitone(step);
    let p2 = pow2_small(oct);
    proof {
        assert(0 <= 440 * (semi as int) * (p2 as int) <= i64::MAX) by (nonlinear_arith)
            requires
                16777216 <= semi < 33554432 && 1 <= p2 <= 1024,
        ;
        assert((440 * semi) as int * (p2 as int) == 440 * (semi as int) * (p2 as int));
    }
    let hz_fp = muldiv_q(440 * semi, p2, 64);
    proof {
        lemma_qdiv_bound(440 * (semi as int) * (p2 as int), 64);
    }
    let cs = div_q(hz_fp, rate as i64);
    if cs >= FP_ONE {
        FP_ONE - 1
    } else {
        cs
    }
}

} // verus!
