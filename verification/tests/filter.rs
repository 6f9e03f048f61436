//! Butterworth design and biquad evaluation on concrete parameters.

use synthz::filter::{
    butterworth_lpf, cos_fp, tan_fp, warp_factor, BiQuad, BiQuadCoeffs, Filter, FilterConfigError,
    INV_SQRT2_FP, MAX_ORDER, PI_FP, PI_HALF_FP, WARP_MAX,
};
use synthz::fixed::FP_ONE;

const CUTOFF_1K: i64 = 1000 * FP_ONE;

#[test]
fn butterworth_rejects_degenerate_parameters() {
    assert_eq!(
        butterworth_lpf(0, CUTOFF_1K, 48000),
        Err(FilterConfigError::InvalidOrder)
    );
    assert_eq!(
        butterworth_lpf(MAX_ORDER + 1, CUTOFF_1K, 48000),
        Err(FilterConfigError::InvalidOrder)
    );
    assert_eq!(
        butterworth_lpf(2, 0, 48000),
        Err(FilterConfigError::InvalidCutoff)
    );
    assert_eq!(
        butterworth_lpf(2, -CUTOFF_1K, 48000),
        Err(FilterConfigError::InvalidCutoff)
    );
    // Cutoff at Nyquist (24 kHz at a 48 kHz rate) is rejected.
    assert_eq!(
        butterworth_lpf(2, 24000 * FP_ONE, 48000),
        Err(FilterConfigError::InvalidCutoff)
    );
}

#[test]
fn butterworth_section_count_follows_order() {
    assert_eq!(butterworth_lpf(1, CUTOFF_1K, 48000).unwrap().len(), 1);
    assert_eq!(butterworth_lpf(2, CUTOFF_1K, 48000).unwrap().len(), 1);
    assert_eq!(butterworth_lpf(3, CUTOFF_1K, 48000).unwrap().len(), 2);
    assert_eq!(butterworth_lpf(8, CUTOFF_1K, 48000).unwrap().len(), 4);
}

#[test]
fn bilinear_transform_preserves_section_dc_gain() {
    // For every designed section the numerator sum is 4 * (1/sqrt 2)
    // and the denominator sum is 4 * 1 (in fixed point), so the gain
    // at DC is exactly the analog section's 1/sqrt(2) -- the
    // documented historical convention, not unity.
    for order in [1u32, 2, 3, 4, 5, 8] {
        let sections = butterworth_lpf(order, CUTOFF_1K, 48000).unwrap();
        for s in &sections {
            assert_eq!(s.b0 + s.b1 + s.b2, 4 * INV_SQRT2_FP);
            assert_eq!(s.den + s.a1 + s.a2, 4 * FP_ONE);
        }
    }
}

#[test]
fn biquad_identity_section_passes_samples_through() {
    let c = BiQuadCoeffs::new(FP_ONE, 0, 0, 0, 0);
    let mut q = BiQuad::new(c);
    assert_eq!(q.filter(1000), 1000);
    assert_eq!(q.filter(-250), -250);
    assert_eq!(q.filter(0), 0);
}

#[test]
fn biquad_one_pole_accumulates() {
    // y[n] = x[n] + y[n-1] (b0 = 1, a1 = -1): a running sum.
    let c = BiQuadCoeffs::new(FP_ONE, 0, 0, -FP_ONE, 0);
    let mut q = BiQuad::new(c);
    assert_eq!(q.filter(100), 100);
    assert_eq!(q.filter(100), 200);
    assert_eq!(q.filter(0), 200);
}

#[test]
fn filter_cascade_runs_stages_in_order() {
    let ident = BiQuadCoeffs::new(FP_ONE, 0, 0, 0, 0);
    let mut f = Filter::fromCfg(vec![ident, ident]);
    assert_eq!(f.filter(4242), 4242);
    // A designed low-pass attenuates an impulse but keeps its sign.
    let sections = butterworth_lpf(2, CUTOFF_1K, 48000).unwrap();
    let mut lp = Filter::fromCfg(sections);
    let first = lp.filter(FP_ONE);
    assert!(first > 0);
    assert!(first < FP_ONE / 10);
}

#[test]
fn step_response_settles_near_the_dc_gain() {
    // Feeding a unit step, the output settles near 1/sqrt(2) (the
    // cascade's DC gain for one section), within a small tolerance.
    let sections = butterworth_lpf(2, CUTOFF_1K, 48000).unwrap();
    let mut lp = Filter::fromCfg(sections);
    let mut y = 0i64;
    for _ in 0..48000 {
        y = lp.filter(FP_ONE);
    }
    let err = (y - INV_SQRT2_FP).abs();
    assert!(err < FP_ONE / 100, "settled at {y}");
}

#[test]
fn trig_helpers_hit_exact_anchors() {
    assert_eq!(cos_fp(0), FP_ONE);
    assert_eq!(cos_fp(PI_FP), -FP_ONE);
    // cos(pi/2) is zero up to the series truncation.
    assert!(cos_fp(PI_HALF_FP).abs() < FP_ONE / 1000);
    assert_eq!(tan_fp(0), 0);
    // tan(0.2) ~ 0.20271 within a few fixed-point steps.
    assert_eq!(tan_fp(FP_ONE / 5), 3400897);
    // warp = 1/tan(x), clamped.
    assert_eq!(warp_factor(0), WARP_MAX);
    assert_eq!(warp_factor(FP_ONE / 8), 133518034);
}
