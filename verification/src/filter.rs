//! Biquad filtering and Butterworth low-pass design.
//!
//! A digital biquad section is kept as integer numerators over a common
//! positive denominator (`a0` is divided out at evaluation time), so the
//! bilinear transform below is exact integer algebra. The design path is
//! the classical one: analog Butterworth prototype sections, a frequency
//! pre-warp, and the bilinear transform applied to each section.
//!
//! Per the historical convention of this synthesizer, a low-pass analog
//! section's numerator is the constant `1/sqrt(2)`; the bilinear
//! transform preserves each section's DC gain exactly (see
//! [`lemma_bilinear_dc_gain`]), so the cascade's DC gain is
//! `(1/sqrt(2))^sections`, not unity.

#![allow(non_snake_case)]

use vstd::prelude::*;
use crate::fixed::{FP_ONE, qdiv, fmul, fdiv, iabs, mul_fp, muldiv_q, div_q, lemma_qdiv_bound,
    lemma_fmul_abs, lemma_abs_mul_le};

verus! {

/// Fixed-point pi.
pub const PI_FP: i64 = 52707179;

/// Fixed-point pi / 2 (rounded down; `PI_FP - 2 * PI_HALF_FP == 1`).
pub const PI_HALF_FP: i64 = 26353589;

/// Fixed-point `1 / sqrt(2)`.
pub const INV_SQRT2_FP: i64 = 11863283;

/// Largest magnitude of a digital-section numerator or denominator
/// (about 2^57).
pub const COEFF_LIMIT: i64 = 144115188075855872;

/// Largest magnitude of a biquad delay state or of a sample passing
/// through a filter (about 2^40): generous headroom above full scale.
pub const STATE_LIMIT: i64 = 1099511627776;

/// Largest pre-warp factor used by the design (about 2^38 in fixed
/// point, i.e. 2^14 as a real factor); extreme cutoffs clamp here.
pub const WARP_MAX: i64 = 274877906944;

/// Largest filter order the design accepts.
pub const MAX_ORDER: u32 = 32;

/// Cosine on `[0, pi/2]` by a truncated even Taylor series:
/// `1 - y^2/2 + y^4/24 - y^6/720`, clamped into `[-FP_ONE/2, FP_ONE]`
/// (the truncation can dip a hair below zero near `pi/2`).
pub open spec fn spec_cos_half(y: int) -> int {
    let t2 = fmul(y, y);
    let t4 = fmul(t2, t2);
    let t6 = fmul(t4, t2);
    let raw = FP_ONE - qdiv(t2, 2) + qdiv(t4, 24) - qdiv(t6, 720);
    if raw > FP_ONE {
        FP_ONE as int
    } else if raw < -(FP_ONE / 2) {
        -(FP_ONE / 2)
    } else {
        raw
    }
}

/// Cosine on `[0, pi]`, folded onto the first quadrant.
pub open spec fn spec_cos(x: int) -> int {
    if x <= PI_HALF_FP {
        spec_cos_half(x)
    } else {
        -spec_cos_half(PI_FP - x)
    }
}

fn cos_half(y: i64) -> (r: i64)
    requires
        0 <= y <= PI_HALF_FP + 2,
    ensures
        r == spec_cos_half(y as int),
        -(FP_ONE / 2) <= r <= FP_ONE,
{
    proof {
        lemma_fmul_abs(y as int, y as int, 26353591, 26353591);
    }
    let t2 = mul_fp(y, y);
    proof {
        assert(0 <= t2 <= 41396126);
        lemma_fmul_abs(t2 as int, t2 as int, 41396126, 41396126);
    }
    let t4 = mul_fp(t2, t2);
    proof {
        assert(0 <= t4 <= 102140858);
        lemma_fmul_abs(t4 as int, t2 as int, 102140858, 41396126);
    }
    let t6 = mul_fp(t4, t2);
    proof {
        assert(0 <= t6 <= 252022494);
    }
    let raw = FP_ONE - div_q(t2, 2) + div_q(t4, 24) - div_q(t6, 720);
    if raw > FP_ONE {
        FP_ONE
    } else if raw < -(FP_ONE / 2) {
        -(FP_ONE / 2)
    } else {
        raw
    }
}

/// Evaluates the fixed-point cosine on `[0, pi]`.
pub fn cos_fp(x: i64) -> (r: i64)
    requires
        0 <= x <= PI_FP,
    ensures
        r == spec_cos(x as int),
        -FP_ONE <= r <= FP_ONE,
{
    if x <= PI_HALF_FP {
        cos_half(x)
    } else {
        let r = cos_half(PI_FP - x);
        -r
    }
}

/// Tangent on `[0, pi/4)` by a truncated odd Taylor series:
/// `y + y^3/3 + 2*y^5/15`.
pub open spec fn spec_tan(y: int) -> int {
    let t2 = fmul(y, y);
    let t3 = fmul(t2, y);
    let t5 = fmul(fmul(t2, t2), y);
    y + qdiv(t3, 3) + qdiv(2 * t5, 15)
}

/// Evaluates the fixed-point tangent on `[0, pi/4)`.
pub fn tan_fp(y: i64) -> (r: i64)
    requires
        0 <= y <= FP_ONE / 4,
    ensures
        r == spec_tan(y as int),
        0 <= r <= FP_ONE,
{
    proof {
        lemma_fmul_abs(y as int, y as int, 4194304, 4194304);
    }
    let t2 = mul_fp(y, y);
    proof {
        assert(0 <= t2 <= 1048576);
        lemma_fmul_abs(t2 as int, y as int, 1048576, 4194304);
        lemma_fmul_abs(t2 as int, t2 as int, 1048576, 1048576);
    }
    let t3 = mul_fp(t2, y);
    let t22 = mul_fp(t2, t2);
    proof {
        assert(0 <= t3 <= 262144);
        assert(0 <= t22 <= 65536);
        lemma_fmul_abs(t22 as int, y as int, 65536, 4194304);
    }
    let t5 = mul_fp(t22, y);
    proof {
        assert(0 <= t5 <= 16384);
        assert(0 <= qdiv(t3 as int, 3) <= t3 && 0 <= qdiv(2 * (t5 as int), 15) <= t5)
            by (nonlinear_arith)
            requires
                0 <= t3 && 0 <= t5,
        ;
    }
    y + div_q(t3, 3) + muldiv_q(2, t5, 15)
}

/// The pre-warp factor for a cutoff angle `x = cutoff / (2 * rate)`:
/// `1 / tan(x)`, clamped into `[1, WARP_MAX]` so that design arithmetic
/// stays bounded for extreme cutoffs.
pub open spec fn spec_warp(x: int) -> int {
    let t = spec_tan(x);
    if t <= 0 {
        WARP_MAX as int
    } else {
        let w = fdiv(FP_ONE as int, t);
        if w > WARP_MAX {
            WARP_MAX as int
        } else if w < 1 {
            1
        } else {
            w
        }
    }
}

/// Computes the clamped pre-warp factor.
pub fn warp_factor(x: i64) -> (r: i64)
    requires
        0 <= x <= FP_ONE / 4,
    ensures
        r == spec_warp(x as int),
        1 <= r <= WARP_MAX,
{
    let t = tan_fp(x);
    if t <= 0 {
        return WARP_MAX;
    }
    proof {
        lemma_abs_mul_le(FP_ONE as int, FP_ONE as int, FP_ONE as int, FP_ONE as int);
        lemma_qdiv_bound((FP_ONE as int) * (FP_ONE as int), t as int);
    }
    let w = muldiv_q(FP_ONE, FP_ONE, t);
    if w > WARP_MAX {
        WARP_MAX
    } else if w < 1 {
        1
    } else {
        w
    }
}

/// One analog prototype section `(b0 s^2 + b1 s + b2) /
/// (a0 s^2 + a1 s + a2)`, coefficients in fixed point.
#[derive(Debug, Clone, Copy, PartialEq, Eq, Structural)]
pub struct AnalogBiQuadCoeffs {
    pub b0: i64,
    pub b1: i64,
    pub b2: i64,
    pub a0: i64,
    pub a1: i64,
    pub a2: i64,
}

impl AnalogBiQuadCoeffs {
    /// Packs analog section coefficients.
    pub fn new(b0: i64, b1: i64, b2: i64, a0: i64, a1: i64, a2: i64) -> (r: AnalogBiQuadCoeffs)
        ensures
            r == (AnalogBiQuadCoeffs { b0, b1, b2, a0, a1, a2 }),
    {
        AnalogBiQuadCoeffs { b0, b1, b2, a0, a1, a2 }
    }

    /// The bounds the bilinear transform needs: nonnegative denominator
    /// coefficients with a positive constant term, everything within a
    /// few units of full scale.
    pub open spec fn wf(self) -> bool {
        &&& iabs(self.b0 as int) <= 4 * FP_ONE
        &&& iabs(self.b1 as int) <= 4 * FP_ONE
        &&& iabs(self.b2 as int) <= 4 * FP_ONE
        &&& 0 <= self.a0 <= 4 * FP_ONE
        &&& 0 <= self.a1 <= 4 * FP_ONE
        &&& 1 <= self.a2 <= 4 * FP_ONE
    }
}

/// Ghost image of a digital section: integer numerators `b0, b1, b2`
/// over the denominator terms `den, a1, a2` (the transfer function is
/// `(b0 + b1 z^-1 + b2 z^-2) / (den + a1 z^-1 + a2 z^-2)`).
pub struct DigitalSection {
    pub b0: int,
    pub b1: int,
    pub b2: int,
    pub a1: int,
    pub a2: int,
    pub den: int,
}

/// One digital biquad section: numerators over the common positive
/// denominator `den`.
#[derive(Debug, Clone, Copy, PartialEq, Eq, Structural)]
pub struct BiQuadCoeffs {
    pub b0: i64,
    pub b1: i64,
    pub b2: i64,
    pub a1: i64,
    pub a2: i64,
    pub den: i64,
}

impl View for BiQuadCoeffs {
    type V = DigitalSection;

    open spec fn view(&self) -> DigitalSection {
        DigitalSection {
            b0: self.b0 as int,
            b1: self.b1 as int,
            b2: self.b2 as int,
            a1: self.a1 as int,
            a2: self.a2 as int,
            den: self.den as int,
        }
    }
}

impl BiQuadCoeffs {
    /// Coefficient magnitudes bounded and a positive denominator.
    pub open spec fn wf(self) -> bool {
        &&& iabs(self.b0 as int) <= COEFF_LIMIT
        &&& iabs(self.b1 as int) <= COEFF_LIMIT
        &&& iabs(self.b2 as int) <= COEFF_LIMIT
        &&& iabs(self.a1 as int) <= COEFF_LIMIT
        &&& iabs(self.a2 as int) <= COEFF_LIMIT
        &&& 1 <= self.den <= COEFF_LIMIT
    }

    /// Packs already-normalized coefficients (`a0 == 1` in fixed point).
    pub fn new(b0: i64, b1: i64, b2: i64, a1: i64, a2: i64) -> (r: BiQuadCoeffs)
        requires
            iabs(b0 as int) <= COEFF_LIMIT,
            iabs(b1 as int) <= COEFF_LIMIT,
            iabs(b2 as int) <= COEFF_LIMIT,
            iabs(a1 as int) <= COEFF_LIMIT,
            iabs(a2 as int) <= COEFF_LIMIT,
        ensures
            r == (BiQuadCoeffs { b0, b1, b2, a1, a2, den: FP_ONE }),
            r.wf(),
    {
        BiQuadCoeffs { b0, b1, b2, a1, a2, den: FP_ONE }
    }
}

/// The bilinear transform of one analog section with pre-warp `w`:
/// substituting `s -> w * (z - 1) / (z + 1)` and clearing `(z + 1)^2`
/// gives integer numerators over the denominator `den`. All five
/// entries reuse the same truncated products, so the section sums
/// below are exact.
pub open spec fn spec_digitise(c: AnalogBiQuadCoeffs, w: int) -> DigitalSection {
    let wsq = fmul(w, w);
    let tb0 = fmul(c.b0 as int, wsq);
    let tb1 = fmul(c.b1 as int, w);
    let ta0 = fmul(c.a0 as int, wsq);
    let ta1 = fmul(c.a1 as int, w);
    DigitalSection {
        b0: tb0 + tb1 + c.b2,
        b1: 2 * c.b2 - 2 * tb0,
        b2: tb0 - tb1 + c.b2,
        a1: 2 * c.a2 - 2 * ta0,
        a2: ta0 - ta1 + c.a2,
        den: ta0 + ta1 + c.a2,
    }
}

/// The bilinear transform preserves a section's DC gain: the digital
/// numerator and denominator sums are exactly `4 * b2` and `4 * a2` of
/// the analog section, so the digital gain at `z == 1` equals the
/// analog gain `b2 / a2` at `s == 0`. With this synthesizer's
/// `1/sqrt(2)` low-pass numerator convention, each designed section's
/// DC gain is therefore `1/sqrt(2)`, not unity.
pub proof fn lemma_bilinear_dc_gain(c: AnalogBiQuadCoeffs, w: int)
    ensures
        spec_digitise(c, w).b0 + spec_digitise(c, w).b1 + spec_digitise(c, w).b2 == 4 * c.b2,
        spec_digitise(c, w).den + spec_digitise(c, w).a1 + spec_digitise(c, w).a2 == 4 * c.a2,
        (spec_digitise(c, w).b0 + spec_digitise(c, w).b1 + spec_digitise(c, w).b2) * (c.a2 as int)
            == (spec_digitise(c, w).den + spec_digitise(c, w).a1 + spec_digitise(c, w).a2) * (
        c.b2 as int),
{
    assert((4 * c.b2) * (c.a2 as int) == (4 * c.a2) * (c.b2 as int)) by (nonlinear_arith);
}

/// Applies the bilinear transform to one analog section.
pub fn digitise_biquad(c: &AnalogBiQuadCoeffs, warp: i64) -> (r: BiQuadCoeffs)
    requires
        c.wf(),
        1 <= warp <= WARP_MAX,
    ensures
        r@ == spec_digitise(*c, warp as int),
        r.wf(),
        r.den >= c.a2,
{
    proof {
        lemma_fmul_abs(warp as int, warp as int, WARP_MAX as int, WARP_MAX as int);
    }
    let wsq = mul_fp(warp, warp);
    proof {
        assert(0 <= wsq <= 4503599627370496);
        lemma_fmul_abs(c.b0 as int, wsq as int, 4 * FP_ONE as int, 4503599627370496);
        lemma_fmul_abs(c.b1 as int, warp as int, 4 * FP_ONE as int, WARP_MAX as int);
        lemma_fmul_abs(c.a0 as int, wsq as int, 4 * FP_ONE as int, 4503599627370496);
        lemma_fmul_abs(c.a1 as int, warp as int, 4 * FP_ONE as int, WARP_MAX as int);
    }
    let tb0 = mul_fp(c.b0, wsq);
    let tb1 = mul_fp(c.b1, warp);
    let ta0 = mul_fp(c.a0, wsq);
    let ta1 = mul_fp(c.a1, warp);
    BiQuadCoeffs {
        b0: tb0 + tb1 + c.b2,
        b1: 2 * c.b2 - 2 * tb0,
        b2: tb0 - tb1 + c.b2,
        a1: 2 * c.a2 - 2 * ta0,
        a2: ta0 - ta1 + c.a2,
        den: ta0 + ta1 + c.a2,
    }
}

/// A value forced into the biquad state range.
pub open spec fn spec_clamp_state(v: int) -> int {
    if v > STATE_LIMIT {
        STATE_LIMIT as int
    } else if v < -STATE_LIMIT {
        -STATE_LIMIT as int
    } else {
        v
    }
}

/// One biquad evaluation step in transposed-direct-form style:
/// `wn = x - (a1 * wn1 + a2 * wn2) / den`, output
/// `y = (b0 * wn + b1 * wn1 + b2 * wn2) / den`, both clamped into the
/// state range. Returns `(wn, y)`.
pub open spec fn spec_biquad_step(c: DigitalSection, w1: int, w2: int, x: int) -> (int, int) {
    let wn = spec_clamp_state(x - qdiv(c.a1 * w1 + c.a2 * w2, c.den));
    let y = spec_clamp_state(qdiv(c.b0 * wn + c.b1 * w1 + c.b2 * w2, c.den));
    (wn, y)
}

/// Ghost image of a biquad: its section and the two delay states.
pub struct BiQuadRep {
    pub c: DigitalSection,
    pub w1: int,
    pub w2: int,
}

/// A 2-pole, 2-zero digital filter section with its 2-sample delay
/// state.
#[derive(Debug, Clone, Copy, PartialEq, Eq, Structural)]
pub struct BiQuad {
    pub coeffs: BiQuadCoeffs,
    pub wn1: i64,
    pub wn2: i64,
}

impl View for BiQuad {
    type V = BiQuadRep;

    open spec fn view(&self) -> BiQuadRep {
        BiQuadRep { c: self.coeffs@, w1: self.wn1 as int, w2: self.wn2 as int }
    }
}

impl BiQuad {
    /// Bounded coefficients and delay states.
    pub open spec fn wf(self) -> bool {
        &&& self.coeffs.wf()
        &&& iabs(self.wn1 as int) <= STATE_LIMIT
        &&& iabs(self.wn2 as int) <= STATE_LIMIT
    }

    /// A section with cleared delay state.
    pub fn new(coeffs: BiQuadCoeffs) -> (r: BiQuad)
        requires
            coeffs.wf(),
        ensures
            r.coeffs == coeffs,
            r.wn1 == 0 && r.wn2 == 0,
            r.wf(),
    {
        BiQuad { coeffs, wn1: 0, wn2: 0 }
    }

    /// Runs one sample through the section, shifting the delay line.
    pub fn filter(&mut self, x: i64) -> (y: i64)
        requires
            old(self).wf(),
            iabs(x as int) <= STATE_LIMIT,
        ensures
            final(self).coeffs == old(self).coeffs,
            final(self).wn2 == old(self).wn1,
            (final(self).wn1 as int, y as int) == spec_biquad_step(
                old(self).coeffs@,
                old(self).wn1 as int,
                old(self).wn2 as int,
                x as int,
            ),
            final(self).wf(),
            iabs(y as int) <= STATE_LIMIT,
{
        let c = &self.coeffs;
        proof {
            crate::fixed::lemma_mul_abs_bound(
                c.a1 as int,
                self.wn1 as int,
                COEFF_LIMIT as int,
                STATE_LIMIT as int,
            );
            crate::fixed::lemma_mul_abs_bound(
                c.a2 as int,
                self.wn2 as int,
                COEFF_LIMIT as int,
                STATE_LIMIT as int,
            );
        }
        let num: i128 = (c.a1 as i128) * (self.wn1 as i128) + (c.a2 as i128) * (self.wn2 as i128);
        proof {
            lemma_qdiv_bound(num as int, c.den as int);
        }
        let q: i128 = num / (c.den as i128);
        let wn_wide: i128 = (x as i128) - q;
        let wn: i64 = if wn_wide > STATE_LIMIT as i128 {
            STATE_LIMIT
        } else if wn_wide < -STATE_LIMIT as i128 {
            -STATE_LIMIT
        } else {
            wn_wide as i64
        };
        proof {
            crate::fixed::lemma_mul_abs_bound(
                c.b0 as int,
                wn as int,
                COEFF_LIMIT as int,
                STATE_LIMIT as int,
            );
            crate::fixed::lemma_mul_abs_bound(
                c.b1 as int,
                self.wn1 as int,
                COEFF_LIMIT as int,
                STATE_LIMIT as int,
            );
            crate::fixed::lemma_mul_abs_bound(
                c.b2 as int,
                self.wn2 as int,
                COEFF_LIMIT as int,
                STATE_LIMIT as int,
            );
        }
        let ynum: i128 = (c.b0 as i128) * (wn as i128) + (c.b1 as i128) * (self.wn1 as i128) + (
        c.b2 as i128) * (self.wn2 as i128);
        proof {
            lemma_qdiv_bound(ynum as int, c.den as int);
        }
        let yq: i128 = ynum / (c.den as i128);
        let y: i64 = if yq > STATE_LIMIT as i128 {
            STATE_LIMIT
        } else if yq < -STATE_LIMIT as i128 {
            -STATE_LIMIT
        } else {
            yq as i64
        };
        self.wn2 = self.wn1;
        self.wn1 = wn;
        y
    }
}

/// Ghost image of a filter cascade.
pub open spec fn spec_filter_view(quads: Seq<BiQuad>) -> Seq<BiQuadRep> {
    quads.map_values(|q: BiQuad| q@)
}

/// Runs one sample through a cascade of sections, front to back,
/// returning the updated sections and the final output.
pub open spec fn spec_cascade(qs: Seq<BiQuadRep>, x: int) -> (Seq<BiQuadRep>, int)
    decreases qs.len(),
{
    if qs.len() == 0 {
        (qs, x)
    } else {
        let head = qs[0];
        let step = spec_biquad_step(head.c, head.w1, head.w2, x);
        let updated = BiQuadRep { c: head.c, w1: step.0, w2: head.w1 };
        let rest = spec_cascade(qs.subrange(1, qs.len() as int), step.1);
        (seq![updated] + rest.0, rest.1)
    }
}

/// An ordered cascade of biquad sections; the output of each stage
/// feeds the next.
#[derive(Debug, Clone)]
pub struct Filter {
    pub quads: Vec<BiQuad>,
}

impl Filter {
    /// All sections are well-formed.
    pub open spec fn wf(self) -> bool {
        forall|i: int| 0 <= i < self.quads@.len() ==> (#[trigger] self.quads@[i]).wf()
    }

    /// Builds a cascade with cleared delay state from designed
    /// coefficients.
    pub fn fromCfg(quads: Vec<BiQuadCoeffs>) -> (r: Filter)
        requires
            forall|i: int| 0 <= i < quads@.len() ==> (#[trigger] quads@[i]).wf(),
        ensures
            r.quads@.len() == quads@.len(),
            forall|i: int|
                0 <= i < quads@.len() ==> (#[trigger] r.quads@[i]) == (BiQuad {
                    coeffs: quads@[i],
                    wn1: 0,
                    wn2: 0,
                }),
            r.wf(),
    {
        let mut xv: Vec<BiQuad> = Vec::new();
        let mut i: usize = 0;
        while i < quads.len()
            invariant
                i <= quads@.len(),
                xv@.len() == i,
                forall|j: int| 0 <= j < quads@.len() ==> (#[trigger] quads@[j]).wf(),
                forall|j: int|
                    0 <= j < i ==> (#[trigger] xv@[j]) == (BiQuad {
                        coeffs: quads@[j],
                        wn1: 0,
                        wn2: 0,
                    }),
            decreases quads@.len() - i,
        {
            xv.push(BiQuad::new(quads[i]));
            i = i + 1;
        }
        Filter { quads: xv }
    }

    /// Runs one sample through the cascade.
    pub fn filter(&mut self, x: i64) -> (y: i64)
        requires
            old(self).wf(),
            iabs(x as int) <= STATE_LIMIT,
        ensures
            (spec_filter_view(final(self).quads@), y as int) == spec_cascade(
                spec_filter_view(old(self).quads@),
                x as int,
            ),
            final(self).quads@.len() == old(self).quads@.len(),
            final(self).wf(),
            iabs(y as int) <= STATE_LIMIT,
    {
        let ghost orig: Seq<BiQuad> = self.quads@;
        proof {
            assert(orig.subrange(0, orig.len() as int) =~= orig);
            assert(spec_filter_view(orig.subrange(0, 0)) =~= Seq::<BiQuadRep>::empty());
            let rest0 = spec_cascade(spec_filter_view(orig), x as int);
            assert(Seq::<BiQuadRep>::empty() + rest0.0 =~= rest0.0);
        }
        let mut y: i64 = x;
        let mut i: usize = 0;
        while i < self.quads.len()
            invariant
                i <= self.quads@.len(),
                self.quads@.len() == orig.len(),
                iabs(y as int) <= STATE_LIMIT,
                forall|j: int| 0 <= j < orig.len() ==> (#[trigger] orig[j]).wf(),
                forall|j: int| 0 <= j < self.quads@.len() ==> (#[trigger] self.quads@[j]).wf(),
                forall|j: int| i <= j < orig.len() ==> self.quads@[j] == orig[j],
                spec_cascade(spec_filter_view(orig), x as int).0 =~= spec_filter_view(
                    self.quads@.subrange(0, i as int),
                ) + spec_cascade(
                    spec_filter_view(orig.subrange(i as int, orig.len() as int)),
                    y as int,
                ).0,
                spec_cascade(spec_filter_view(orig), x as int).1 == spec_cascade(
                    spec_filter_view(orig.subrange(i as int, orig.len() as int)),
                    y as int,
                ).1,
            decreases self.quads@.len() - i,
        {
            let ghost pre: Seq<BiQuad> = self.quads@;
            let mut bq: BiQuad = self.quads[i];
            let y2 = bq.filter(y);
            self.quads.set(i, bq);
            proof {
                let suffix = spec_filter_view(orig.subrange(i as int, orig.len() as int));
                assert(suffix[0] == orig[i as int]@);
                assert(suffix.subrange(1, suffix.len() as int) =~= spec_filter_view(
                    orig.subrange(i as int + 1, orig.len() as int),
                ));
                assert(spec_filter_view(self.quads@.subrange(0, i as int + 1)) =~= spec_filter_view(
                    pre.subrange(0, i as int),
                ) + seq![bq@]);
                let rest_new = spec_cascade(
                    spec_filter_view(orig.subrange(i as int + 1, orig.len() as int)),
                    y2 as int,
                );
                assert(spec_filter_view(pre.subrange(0, i as int)) + (seq![bq@] + rest_new.0)
                    =~= spec_filter_view(self.quads@.subrange(0, i as int + 1)) + rest_new.0);
            }
            y = y2;
            i = i + 1;
        }
        proof {
            assert(spec_filter_view(orig.subrange(i as int, orig.len() as int)) =~= Seq::empty());
            assert(spec_filter_view(self.quads@.subrange(0, i as int)) =~= spec_filter_view(
                self.quads@,
            ));
            let c = spec_cascade(spec_filter_view(orig), x as int);
            assert(spec_filter_view(self.quads@) + Seq::<BiQuadRep>::empty() =~= spec_filter_view(
                self.quads@,
            ));
            assert(c.0 =~= spec_filter_view(self.quads@));
        }
        y
    }
}

/// The pole angle of conjugate-pair section `k` of an order-`n`
/// Butterworth prototype: `(2 * (k + 1) + n - 1) * pi / (2 * n)`.
pub open spec fn spec_theta(n: int, k: int) -> int {
    qdiv((2 * (k + 1) + n - 1) * PI_FP, 2 * n)
}

/// Analog prototype section `k` of an order-`n` Butterworth low-pass:
/// denominator `{1, -2 cos(theta_k) + 1, 1}` for each conjugate pole
/// pair, one extra first-order section `{0, 1, 1}` when the order is
/// odd, and the constant numerator `1/sqrt(2)` throughout.
pub open spec fn spec_analog_section(n: int, k: int) -> AnalogBiQuadCoeffs {
    if 2 * (k + 1) <= n {
        AnalogBiQuadCoeffs {
            b0: 0,
            b1: 0,
            b2: INV_SQRT2_FP,
            a0: FP_ONE,
            a1: (FP_ONE - 2 * spec_cos(spec_theta(n, k))) as i64,
            a2: FP_ONE,
        }
    } else {
        AnalogBiQuadCoeffs { b0: 0, b1: 0, b2: INV_SQRT2_FP, a0: 0, a1: FP_ONE, a2: FP_ONE }
    }
}

/// Builds the analog Butterworth prototype for the requested order:
/// one section per conjugate pole pair, plus a first-order section for
/// an odd order.
pub fn analog_coeffs(n: u32) -> (v: Vec<AnalogBiQuadCoeffs>)
    requires
        1 <= n <= MAX_ORDER,
    ensures
        v@.len() == (n + 1) / 2,
        forall|k: int| 0 <= k < v@.len() ==> (#[trigger] v@[k]) == spec_analog_section(n as int, k),
        forall|k: int| 0 <= k < v@.len() ==> (#[trigger] v@[k]).wf(),
{
    let nn: i64 = n as i64;
    let mut v: Vec<AnalogBiQuadCoeffs> = Vec::new();
    let pairs: i64 = nn / 2;
    let mut k: i64 = 0;
    while k < pairs
        invariant
            1 <= nn <= MAX_ORDER,
            pairs == nn / 2,
            0 <= k <= pairs,
            v@.len() == k,
            forall|j: int| 0 <= j < k ==> (#[trigger] v@[j]) == spec_analog_section(nn as int, j),
            forall|j: int| 0 <= j < k ==> (#[trigger] v@[j]).wf(),
        decreases pairs - k,
    {
        proof {
            assert(2 * (k + 1) <= nn) by (nonlinear_arith)
                requires
                    0 <= k < nn / 2,
            ;
        }
        let num: i64 = 2 * (k + 1) + nn - 1;
        proof {
            let numi = num as int;
            let ni = nn as int;
            assert(ni + 1 <= numi <= 2 * ni - 1);
            assert(0 <= numi * PI_FP <= (2 * ni) * PI_FP && numi * PI_FP >= (ni + 1) * PI_FP)
                by (nonlinear_arith)
                requires
                    0 < ni && ni + 1 <= numi <= 2 * ni - 1 && PI_FP > 0,
            ;
            assert(iabs(numi * PI_FP) <= i64::MAX * (2 * ni)) by (nonlinear_arith)
                requires
                    0 <= numi * PI_FP && numi <= 2 * ni - 1 && 1 <= ni <= MAX_ORDER && PI_FP
                        == 52707179,
            ;
            assert(qdiv(numi * PI_FP, 2 * ni) <= PI_FP) by (nonlinear_arith)
                requires
                    0 <= numi * PI_FP <= (2 * ni) * PI_FP && ni >= 1,
            ;
            assert((ni + 1) * PI_FP >= (2 * ni) * (PI_HALF_FP + 1)) by (nonlinear_arith)
                requires
                    1 <= ni <= 32 && PI_FP == 52707179 && PI_HALF_FP == 26353589,
            ;
            assert(qdiv(numi * PI_FP, 2 * ni) >= PI_HALF_FP + 1) by (nonlinear_arith)
                requires
                    numi * PI_FP >= (2 * ni) * (PI_HALF_FP + 1) && ni >= 1 && PI_HALF_FP + 1 > 0,
            ;
            assert(qdiv(numi * PI_FP, 2 * ni) >= 0) by (nonlinear_arith)
                requires
                    numi * PI_FP >= 0 && ni >= 1,
            ;
        }
        let theta = muldiv_q(num, PI_FP, 2 * nn);
        let cth = cos_fp(theta);
        proof {
            assert(spec_cos(theta as int) <= FP_ONE / 2);
        }
        let a1v: i64 = FP_ONE - 2 * cth;
        v.push(
            AnalogBiQuadCoeffs { b0: 0, b1: 0, b2: INV_SQRT2_FP, a0: FP_ONE, a1: a1v, a2: FP_ONE },
        );
        k = k + 1;
    }
    if n % 2 > 0 {
        v.push(AnalogBiQuadCoeffs { b0: 0, b1: 0, b2: INV_SQRT2_FP, a0: 0, a1: FP_ONE, a2: FP_ONE });
        proof {
            assert(2 * ((v@.len() - 1) + 1) > nn) by (nonlinear_arith)
                requires
                    v@.len() - 1 == nn / 2 && nn % 2 == 1 && nn >= 1,
            ;
            assert(v@.len() == (nn + 1) / 2) by (nonlinear_arith)
                requires
                    v@.len() == nn / 2 + 1 && nn % 2 == 1 && nn >= 1,
            ;
        }
    } else {
        proof {
            assert(v@.len() == (nn + 1) / 2) by (nonlinear_arith)
                requires
                    v@.len() == nn / 2 && nn % 2 == 0 && nn >= 1,
            ;
        }
    }
    v
}

/// Why a filter design request was rejected.
#[derive(Debug, Clone, Copy, PartialEq, Eq, Structural)]
pub enum FilterConfigError {
    /// The order was zero or beyond [`MAX_ORDER`].
    InvalidOrder,
    /// The cutoff was not strictly between zero and Nyquist.
    InvalidCutoff,
}

/// The parameters the Butterworth design accepts: a positive order up
/// to [`MAX_ORDER`] and a cutoff strictly between 0 Hz and Nyquist.
pub open spec fn spec_butterworth_valid(order: int, cutoff: int, rate: int) -> bool {
    &&& 1 <= order <= MAX_ORDER
    &&& 0 < cutoff
    &&& 2 * cutoff < rate * FP_ONE
}

/// The pre-warp angle of a design request: `cutoff / (2 * rate)`.
pub open spec fn spec_cutoff_angle(cutoff: int, rate: int) -> int {
    qdiv(cutoff, 2 * rate)
}

/// Digital section `k` of the designed cascade.
pub open spec fn spec_butterworth_section(order: int, cutoff: int, rate: int, k: int)
    -> DigitalSection {
    spec_digitise(spec_analog_section(order, k), spec_warp(spec_cutoff_angle(cutoff, rate)))
}

/// Every section the Butterworth design produces has numerator sum
/// `4 * (1/sqrt 2)` and denominator sum `4 * 1` in fixed point: its
/// gain at DC is exactly the analog prototype's `1/sqrt(2)`, whatever
/// the order, cutoff and rate. The cascade's DC gain is therefore
/// `(1/sqrt 2)^sections`, a direct consequence of the historical
/// constant-numerator convention.
pub proof fn lemma_butterworth_dc_sums(order: int, cutoff: int, rate: int, k: int)
    ensures
        spec_butterworth_section(order, cutoff, rate, k).b0 + spec_butterworth_section(
            order,
            cutoff,
            rate,
            k,
        ).b1 + spec_butterworth_section(order, cutoff, rate, k).b2 == 4 * INV_SQRT2_FP,
        spec_butterworth_section(order, cutoff, rate, k).den + spec_butterworth_section(
            order,
            cutoff,
            rate,
            k,
        ).a1 + spec_butterworth_section(order, cutoff, rate, k).a2 == 4 * FP_ONE,
{
    lemma_bilinear_dc_gain(
        spec_analog_section(order, k),
        spec_warp(spec_cutoff_angle(cutoff, rate)),
    );
}

/// Designs an order-`order` Butterworth low-pass cascade for the given
/// fixed-point cutoff (Hz) and sample rate (Hz). Degenerate parameters
/// (order zero or beyond [`MAX_ORDER`]; cutoff at or below zero, or at
/// or above Nyquist) are rejected, never turned into coefficients.
pub fn butterworth_lpf(order: u32, cutoff: i64, rate: u32) -> (r: Result<
    Vec<BiQuadCoeffs>,
    FilterConfigError,
>)
    requires
        rate >= 1,
    ensures
        r is Ok <==> spec_butterworth_valid(order as int, cutoff as int, rate as int),
        !(1 <= order <= MAX_ORDER) ==> r == Err::<Vec<BiQuadCoeffs>, FilterConfigError>(
            FilterConfigError::InvalidOrder,
        ),
        (1 <= order <= MAX_ORDER && !(0 < cutoff && 2 * cutoff < rate * FP_ONE)) ==> r == Err::<
            Vec<BiQuadCoeffs>,
            FilterConfigError,
        >(FilterConfigError::InvalidCutoff),
        r matches Ok(v) ==> {
            &&& v@.len() == (order + 1) / 2
            &&& forall|k: int|
                0 <= k < v@.len() ==> (#[trigger] v@[k])@ == spec_butterworth_section(
                    order as int,
                    cutoff as int,
                    rate as int,
                    k,
                )
            &&& forall|k: int| 0 <= k < v@.len() ==> (#[trigger] v@[k]).wf()
        },
{
    if order < 1 || order > MAX_ORDER {
        return Err(FilterConfigError::InvalidOrder);
    }
    if cutoff <= 0 || cutoff >= (rate as i64) * (FP_ONE / 2) {
        return Err(FilterConfigError::InvalidCutoff);
    }
    let x = div_q(cutoff, 2 * (rate as i64));
    proof {
        assert(qdiv(cutoff as int, 2 * (rate as int)) <= FP_ONE / 4) by (nonlinear_arith)
            requires
                0 < cutoff && (cutoff as int) < (rate as int) * ((FP_ONE as int) / 2) && rate >= 1
                    && FP_ONE == 16777216,
        ;
        assert(qdiv(cutoff as int, 2 * (rate as int)) >= 0) by (nonlinear_arith)
            requires
                cutoff > 0 && rate >= 1,
        ;
    }
    let warp = warp_factor(x);
    let analog = analog_coeffs(order);
    let mut v: Vec<BiQuadCoeffs> = Vec::new();
    let mut i: usize = 0;
    while i < analog.len()
        invariant
            analog@.len() == (order + 1) / 2,
            forall|k: int|
                0 <= k < analog@.len() ==> (#[trigger] analog@[k]) == spec_analog_section(
                    order as int,
                    k,
                ),
            forall|k: int| 0 <= k < analog@.len() ==> (#[trigger] analog@[k]).wf(),
            1 <= warp <= WARP_MAX,
            warp == spec_warp(spec_cutoff_angle(cutoff as int, rate as int)),
            i <= analog@.len(),
            v@.len() == i,
            forall|k: int|
                0 <= k < i ==> (#[trigger] v@[k])@ == spec_butterworth_section(
                    order as int,
                    cutoff as int,
                    rate as int,
                    k,
                ),
            forall|k: int| 0 <= k < i ==> (#[trigger] v@[k]).wf(),
        decreases analog@.len() - i,
    {
        let d = digitise_biquad(&analog[i], warp);
        v.push(d);
        i = i + 1;
    }
    Ok(v)
}

} // verus!
