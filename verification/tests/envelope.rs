//! The ADSR shape on concrete parameters.

use synthz::envelope::{envelope, EnvelopeParams, MAX_STAGE};
use synthz::fixed::{FP_HALF, FP_ONE};

fn params() -> EnvelopeParams {
    EnvelopeParams::new(10, 20, FP_HALF, 30)
}

const HELD: i64 = i64::MAX;

#[test]
fn envelope_is_zero_at_trigger() {
    assert_eq!(envelope(&params(), HELD, 0), 0);
}

#[test]
fn envelope_reaches_full_scale_when_attack_ends() {
    assert_eq!(envelope(&params(), HELD, 10), FP_ONE);
}

#[test]
fn envelope_attack_ramp_is_linear() {
    let p = params();
    assert_eq!(envelope(&p, HELD, 5), FP_ONE / 2);
    assert_eq!(envelope(&p, HELD, 1), FP_ONE / 10);
}

#[test]
fn envelope_holds_sustain_after_decay() {
    let p = params();
    // a + d + 5 = 35: squarely inside the sustain region.
    assert_eq!(envelope(&p, HELD, 35), FP_HALF);
    assert_eq!(envelope(&p, HELD, 1000000), FP_HALF);
}

#[test]
fn envelope_decay_is_linear_to_sustain() {
    let p = params();
    // Halfway through the decay: 1 - (1 - s) / 2 = 3/4.
    assert_eq!(envelope(&p, HELD, 20), FP_ONE / 2 + FP_ONE / 4);
    assert_eq!(envelope(&p, HELD, 30), FP_HALF);
}

#[test]
fn envelope_release_decays_linearly_to_zero() {
    let p = params();
    let et = 100;
    assert_eq!(envelope(&p, et, 100), FP_HALF);
    assert_eq!(envelope(&p, et, 115), FP_HALF / 2);
    assert_eq!(envelope(&p, et, 130), 0);
    assert_eq!(envelope(&p, et, 1000), 0);
}

#[test]
fn envelope_release_never_goes_negative() {
    let p = params();
    let et = 50;
    let mut prev = envelope(&p, et, 50);
    for rt in 51..=85 {
        let g = envelope(&p, et, rt);
        assert!(g <= prev);
        assert!(g >= 0);
        prev = g;
    }
}

#[test]
fn envelope_params_are_clamped() {
    let p = EnvelopeParams::new(-5, MAX_STAGE + 7, 2 * FP_ONE, -1);
    assert_eq!(p.attack, 0);
    assert_eq!(p.decay, MAX_STAGE);
    assert_eq!(p.sustain, FP_ONE);
    assert_eq!(p.release, 0);
}

#[test]
fn envelope_release_during_attack_fades_from_sustain() {
    let p = params();
    // Released at sample 4, mid-attack: the release window fades the
    // sustain fraction, matching the trigger-based module behavior.
    let et = 4;
    assert_eq!(envelope(&p, et, 4), FP_HALF);
    assert_eq!(envelope(&p, et, 34), 0);
}
