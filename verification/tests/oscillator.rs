//! Waveform evaluation on concrete phases and frequencies.

use synthz::fixed::{FP_HALF, FP_ONE};
use synthz::oscillator::{oscillate, pitch_freq, sine_fp, Waveform};

/// One cycle per 64 samples.
const FREQ_64: i64 = FP_ONE / 64;

#[test]
fn sine_zero_crossings_at_half_cycle_multiples() {
    // Configured for exactly one cycle per 64 samples, the sine is
    // exactly zero at samples 0, 32, 64, 96, ...
    for t in [0i64, 32, 64, 96, 128, 6400] {
        assert_eq!(oscillate(Waveform::Sine, t, FREQ_64, 0, FP_HALF, 0), 0);
    }
}

#[test]
fn sine_peaks_at_quarter_cycles() {
    assert_eq!(oscillate(Waveform::Sine, 16, FREQ_64, 0, FP_HALF, 0), FP_ONE);
    assert_eq!(oscillate(Waveform::Sine, 48, FREQ_64, 0, FP_HALF, 0), -FP_ONE);
}

#[test]
fn sine_is_odd_around_the_half_cycle() {
    for t in 1i64..32 {
        let a = oscillate(Waveform::Sine, t, FREQ_64, 0, FP_HALF, 0);
        let b = oscillate(Waveform::Sine, t + 32, FREQ_64, 0, FP_HALF, 0);
        assert_eq!(a, -b);
        assert!(a > 0);
    }
}

#[test]
fn sine_fp_exact_values() {
    assert_eq!(sine_fp(0), 0);
    assert_eq!(sine_fp(FP_HALF), 0);
    assert_eq!(sine_fp(FP_HALF / 2), FP_ONE);
    assert_eq!(sine_fp(FP_HALF + FP_HALF / 2), -FP_ONE);
}

#[test]
fn square_follows_duty_cycle() {
    // frac = t/64 of a cycle; duty 1/2.
    assert_eq!(oscillate(Waveform::Square, 0, FREQ_64, 0, FP_HALF, 0), FP_HALF);
    assert_eq!(oscillate(Waveform::Square, 31, FREQ_64, 0, FP_HALF, 0), FP_HALF);
    assert_eq!(oscillate(Waveform::Square, 32, FREQ_64, 0, FP_HALF, 0), -FP_HALF);
    assert_eq!(oscillate(Waveform::Square, 63, FREQ_64, 0, FP_HALF, 0), -FP_HALF);
    // Duty 1/4 spends a quarter of the period high.
    let duty = FP_ONE / 4;
    assert_eq!(oscillate(Waveform::Square, 15, FREQ_64, 0, duty, 0), FP_HALF);
    assert_eq!(oscillate(Waveform::Square, 16, FREQ_64, 0, duty, 0), -FP_HALF);
}

#[test]
fn sawtooth_ramps_across_the_cycle() {
    assert_eq!(oscillate(Waveform::Sawtooth, 0, FREQ_64, 0, FP_HALF, 0), -FP_ONE);
    assert_eq!(oscillate(Waveform::Sawtooth, 32, FREQ_64, 0, FP_HALF, 0), 0);
    assert_eq!(
        oscillate(Waveform::Sawtooth, 48, FREQ_64, 0, FP_HALF, 0),
        FP_HALF
    );
}

#[test]
fn triangle_folds_the_ramp() {
    assert_eq!(oscillate(Waveform::Triangle, 0, FREQ_64, 0, FP_HALF, 0), -FP_ONE);
    assert_eq!(oscillate(Waveform::Triangle, 16, FREQ_64, 0, FP_HALF, 0), 0);
    assert_eq!(oscillate(Waveform::Triangle, 32, FREQ_64, 0, FP_HALF, 0), FP_ONE);
    assert_eq!(oscillate(Waveform::Triangle, 48, FREQ_64, 0, FP_HALF, 0), 0);
    assert_eq!(oscillate(Waveform::Triangle, 8, FREQ_64, 0, FP_HALF, 0), -FP_HALF);
}

#[test]
fn noise_passes_the_clamped_draw_through() {
    assert_eq!(oscillate(Waveform::Noise, 5, FREQ_64, 0, FP_HALF, 1234), 1234);
    assert_eq!(
        oscillate(Waveform::Noise, 5, FREQ_64, 0, FP_HALF, 10 * FP_ONE),
        FP_ONE
    );
    assert_eq!(
        oscillate(Waveform::Noise, 5, FREQ_64, 0, FP_HALF, -10 * FP_ONE),
        -FP_ONE
    );
}

#[test]
fn fm_input_shifts_the_phase() {
    // Half a cycle of FM input turns the square wave's phase around.
    assert_eq!(
        oscillate(Waveform::Square, 0, FREQ_64, FP_HALF, FP_HALF, 0),
        -FP_HALF
    );
    assert_eq!(
        oscillate(Waveform::Sine, 0, FREQ_64, FP_HALF / 2, FP_HALF, 0),
        FP_ONE
    );
}

#[test]
fn waveform_selector_splits_unit_interval() {
    assert!(matches!(Waveform::from_data(0), Waveform::Sine));
    assert!(matches!(Waveform::from_data(FP_ONE / 5 + 8), Waveform::Square));
    assert!(matches!(
        Waveform::from_data(2 * FP_ONE / 5 + 8),
        Waveform::Sawtooth
    ));
    assert!(matches!(
        Waveform::from_data(3 * FP_ONE / 5 + 8),
        Waveform::Triangle
    ));
    assert!(matches!(Waveform::from_data(4 * FP_ONE / 5 + 8), Waveform::Noise));
    assert!(matches!(Waveform::from_data(2 * FP_ONE), Waveform::Sine));
}

#[test]
fn pitch_freq_equal_temperament() {
    // A4 (pitch 69) at 44100 Hz: 440 * 2^24 / 44100, truncated.
    assert_eq!(pitch_freq(69, 44100), 167391);
    // One octave up doubles the frequency (exactly, before division).
    assert_eq!(pitch_freq(81, 44100), 334783);
    // A0 (pitch 21): 27.5 Hz.
    assert_eq!(pitch_freq(21, 44100), 10461);
    // Frequencies stay below one cycle per sample even at tiny rates.
    assert!(pitch_freq(127, 1) < FP_ONE);
}
