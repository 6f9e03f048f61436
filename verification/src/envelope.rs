//! The ADSR envelope: a linear gain in `[0, 1]` over a note's lifetime.
//!
//! Times are in samples. Given attack `a`, decay `d`, release `r` and
//! sustain fraction `s`, a note triggered at sample 0 and released at
//! sample `et` has gain
//!
//! ```text
//! rt <  a          ->  rt / a
//! a  <= rt < a+d   ->  (1-s) * ((a+d-rt) / d) + s
//! a+d <= rt < et   ->  s
//! et <= rt < et+r  ->  s * ((et+r-rt) / r)
//! rt >= et+r       ->  0
//! ```
//!
//! A note still held is modelled by the sentinel `et == i64::MAX`, which
//! behaves as "never released" for every reachable `rt`.

use vstd::prelude::*;
use crate::fixed::{FP_ONE, qdiv, iabs, muldiv_q};

verus! {

/// Upper bound on envelope stage lengths in samples (about 2^40; more
/// than 100 hours of audio), so stage arithmetic stays well inside `i64`.
pub const MAX_STAGE: i64 = 1099511627776;

/// ADSR parameters: `attack`, `decay` and `release` are sample counts,
/// `sustain` is a fixed-point fraction of full gain. Immutable once
/// snapshotted into a voice.
#[derive(Debug, Clone, Copy, PartialEq, Eq, Structural)]
pub struct EnvelopeParams {
    pub attack: i64,
    pub decay: i64,
    pub sustain: i64,
    pub release: i64,
}

impl EnvelopeParams {
    /// Stage lengths are nonnegative and bounded, and the sustain
    /// fraction lies in `[0, 1]`.
    pub open spec fn wf(self) -> bool {
        &&& 0 <= self.attack <= MAX_STAGE
        &&& 0 <= self.decay <= MAX_STAGE
        &&& 0 <= self.release <= MAX_STAGE
        &&& 0 <= self.sustain <= FP_ONE
    }

    /// Builds well-formed parameters by clamping each stage into its
    /// legal range.
    pub fn new(attack: i64, decay: i64, sustain: i64, release: i64) -> (p: EnvelopeParams)
        ensures
            p.wf(),
            p.attack == clamp_stage(attack),
            p.decay == clamp_stage(decay),
            p.release == clamp_stage(release),
            p.sustain == clamp_gain(sustain),
    {
        EnvelopeParams {
            attack: clamp_stage_exec(attack),
            decay: clamp_stage_exec(decay),
            sustain: clamp_gain_exec(sustain),
            release: clamp_stage_exec(release),
        }
    }
}

/// A stage length forced into `[0, MAX_STAGE]`.
pub open spec fn clamp_stage(v: i64) -> i64 {
    if v < 0 {
        0
    } else if v > MAX_STAGE {
        MAX_STAGE
    } else {
        v
    }
}

/// A gain forced into `[0, FP_ONE]`.
pub open spec fn clamp_gain(v: i64) -> i64 {
    if v < 0 {
        0
    } else if v > FP_ONE {
        FP_ONE
    } else {
        v
    }
}

pub fn clamp_stage_exec(v: i64) -> (r: i64)
    ensures
        r == clamp_stage(v),
{
    if v < 0 {
        0
    } else if v > MAX_STAGE {
        MAX_STAGE
    } else {
        v
    }
}

pub fn clamp_gain_exec(v: i64) -> (r: i64)
    ensures
        r == clamp_gain(v),
{
    if v < 0 {
        0
    } else if v > FP_ONE {
        FP_ONE
    } else {
        v
    }
}

/// The envelope gain at `rt` samples after the trigger, for a note whose
/// release begins `et` samples after the trigger: the linear ADSR shape
/// written out region by region, with truncating fixed-point division.
pub open spec fn spec_envelope(p: EnvelopeParams, et: int, rt: int) -> int {
    if rt < 0 {
        0
    } else if rt >= et {
        if rt < et + p.release {
            qdiv(p.sustain * (et + p.release - rt), p.release as int)
        } else {
            0
        }
    } else if rt < p.attack {
        qdiv(rt * FP_ONE, p.attack as int)
    } else if rt < p.attack + p.decay {
        qdiv((FP_ONE - p.sustain) * (p.attack + p.decay - rt), p.decay as int) + p.sustain
    } else {
        p.sustain as int
    }
}

/// The envelope gain never leaves `[0, FP_ONE]`.
pub proof fn lemma_envelope_bounds(p: EnvelopeParams, et: int, rt: int)
    requires
        p.wf(),
    ensures
        0 <= spec_envelope(p, et, rt) <= FP_ONE,
{
    if rt < 0 {
    } else if rt >= et {
        if rt < et + p.release {
            assert(0 <= qdiv(p.sustain * (et + p.release - rt), p.release as int) <= p.sustain)
                by (nonlinear_arith)
                requires
                    et <= rt < et + p.release && 0 <= p.sustain <= FP_ONE,
            ;
        }
    } else if rt < p.attack {
        assert(0 <= qdiv(rt * FP_ONE, p.attack as int) <= FP_ONE) by (nonlinear_arith)
            requires
                0 <= rt < p.attack && p.attack >= 1,
        ;
    } else if rt < p.attack + p.decay {
        assert(0 <= qdiv((FP_ONE - p.sustain) * (p.attack + p.decay - rt), p.decay as int)
            <= FP_ONE - p.sustain) by (nonlinear_arith)
            requires
                p.attack <= rt < p.attack + p.decay && 0 <= p.sustain <= FP_ONE,
        ;
    } else {
    }
}

/// Evaluates the ADSR envelope. `et` is the sample (relative to the
/// trigger) at which release begins; `i64::MAX` stands for a note still
/// held. Returns the gain as a fixed-point fraction of full scale.
pub fn envelope(p: &EnvelopeParams, et: i64, rt: i64) -> (g: i64)
    requires
        p.wf(),
        et >= 0,
    ensures
        g == spec_envelope(*p, et as int, rt as int),
        0 <= g <= FP_ONE,
{
    proof {
        lemma_envelope_bounds(*p, et as int, rt as int);
    }
    if rt < 0 {
        0
    } else if rt >= et {
        if rt - et < p.release {
            proof {
                assert(p.sustain * (et + p.release - rt) == (p.sustain as int) * ((p.release
                    - (rt - et)) as int));
                assert(0 <= p.sustain * (p.release - (rt - et)) <= i64::MAX * (p.release as int))
                    by (nonlinear_arith)
                    requires
                        et <= rt && rt - et < p.release && 0 <= p.sustain <= FP_ONE && FP_ONE
                            < i64::MAX,
                ;
            }
            muldiv_q(p.sustain, p.release - (rt - et), p.release)
        } else {
            0
        }
    } else if rt < p.attack {
        proof {
            assert(0 <= (rt as int) * (FP_ONE as int) <= i64::MAX * (p.attack as int))
                by (nonlinear_arith)
                requires
                    0 <= rt < p.attack && 0 < FP_ONE < i64::MAX,
            ;
        }
        muldiv_q(rt, FP_ONE, p.attack)
    } else if rt - p.attack < p.decay {
        proof {
            assert((FP_ONE - p.sustain) as int * ((p.attack + p.decay - rt) as int) == (FP_ONE
                - p.sustain) * (p.attack + p.decay - rt));
            assert(0 <= (FP_ONE - p.sustain) * (p.attack + p.decay - rt) <= i64::MAX * (
            p.decay as int)) by (nonlinear_arith)
                requires
                    p.attack <= rt && rt - p.attack < p.decay && 0 <= p.sustain <= FP_ONE && FP_ONE
                        < i64::MAX,
            ;
        }
        let g0 = muldiv_q(FP_ONE - p.sustain, p.attack + p.decay - rt, p.decay);
        proof {
            assert(0 <= qdiv((FP_ONE - p.sustain) * (p.attack + p.decay - rt), p.decay as int)
                <= FP_ONE - p.sustain) by (nonlinear_arith)
                requires
                    p.attack <= rt < p.attack + p.decay && 0 <= p.sustain <= FP_ONE,
            ;
        }
        g0 + p.sustain
    } else {
        p.sustain
    }
}

/// The ADSR shape itself, stated for one note: the gain starts at zero,
/// reaches full scale exactly when the attack ends, holds the sustain
/// fraction throughout the sustain region, fades linearly through the
/// release window, and is zero from the end of the release onward.
pub proof fn lemma_envelope_shape(p: EnvelopeParams, et: int)
    requires
        p.wf(),
        p.attack > 0,
        p.decay > 0,
        p.release > 0,
        et >= p.attack + p.decay,
    ensures
        spec_envelope(p, et, 0) == 0,
        spec_envelope(p, et, p.attack as int) == FP_ONE,
        forall|rt: int|
            p.attack + p.decay <= rt < et ==> spec_envelope(p, et, rt) == p.sustain,
        forall|rt: int|
            et <= rt < et + p.release ==> spec_envelope(p, et, rt) == qdiv(
                p.sustain * (et + p.release - rt),
                p.release as int,
            ),
        spec_envelope(p, et, et) == p.sustain as int,
        forall|rt: int| rt >= et + p.release ==> spec_envelope(p, et, rt) == 0,
{
    assert(qdiv(0 * FP_ONE, p.attack as int) == 0) by (nonlinear_arith)
        requires
            p.attack > 0,
    ;
    assert(spec_envelope(p, et, p.attack as int) == qdiv(
        (FP_ONE - p.sustain) * (p.attack + p.decay - p.attack),
        p.decay as int,
    ) + p.sustain);
    assert(qdiv((FP_ONE - p.sustain) * p.decay, p.decay as int) == FP_ONE - p.sustain)
        by (nonlinear_arith)
        requires
            p.decay > 0 && 0 <= p.sustain <= FP_ONE,
    ;
    assert(spec_envelope(p, et, et) == qdiv(p.sustain * (et + p.release - et), p.release as int));
    assert(qdiv(p.sustain * p.release, p.release as int) == p.sustain) by (nonlinear_arith)
        requires
            p.release > 0 && 0 <= p.sustain,
    ;
}

} // verus!
