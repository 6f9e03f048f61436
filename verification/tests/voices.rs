//! Voice allocation: retrigger, release, pool exhaustion.

use synthz::envelope::EnvelopeParams;
use synthz::fixed::{FP_HALF, FP_ONE};
use synthz::oscillator::Waveform;
use synthz::voice::{Voice, VoiceAllocator, VoiceTemplate, SUSTAIN_FOREVER};

fn template() -> VoiceTemplate {
    VoiceTemplate {
        wave: Waveform::Sine,
        duty: FP_HALF,
        secondary: None,
        env: EnvelopeParams::new(10, 20, FP_HALF, 30),
        filter_coeffs: None,
    }
}

#[test]
fn note_on_takes_the_first_free_voice() {
    let mut a = VoiceAllocator::new(4, 48000);
    assert_eq!(a.note_on(60, 100, 0, &template()), Some(0));
    assert_eq!(a.note_on(61, 100, 0, &template()), Some(1));
    assert_eq!(a.voices[0].note, 60);
    assert_eq!(a.voices[1].note, 61);
    assert_eq!(a.voices[0].end_sample, SUSTAIN_FOREVER);
}

#[test]
fn retrigger_reuses_the_same_slot() {
    let mut a = VoiceAllocator::new(4, 48000);
    assert_eq!(a.note_on(60, 100, 0, &template()), Some(0));
    // The same pitch again reuses slot 0: no second voice is consumed.
    assert_eq!(a.note_on(60, 90, 5, &template()), Some(0));
    assert_eq!(a.voices[0].note, 60);
    for i in 1..4 {
        assert_eq!(a.voices[i].note, -1);
    }
    // Even a voice in release is retriggered in place.
    a.note_off(60, 0);
    assert!(a.voices[0].end_sample < SUSTAIN_FOREVER);
    assert_eq!(a.note_on(60, 100, 0, &template()), Some(0));
    assert_eq!(a.voices[0].end_sample, SUSTAIN_FOREVER);
}

#[test]
fn released_slot_is_reused_after_release_completes() {
    let mut a = VoiceAllocator::new(4, 48000);
    assert_eq!(a.note_on(60, 100, 0, &template()), Some(0));
    a.note_off(60, 10);
    // March time past the voice's end sample: the slot becomes free.
    a.advance(1000);
    assert!(a.current_sample > a.voices[0].end_sample);
    // The new note lands on the now-free slot 0, not a different one.
    assert_eq!(a.note_on(60, 100, 0, &template()), Some(0));
    assert_eq!(a.note_on(72, 100, 0, &template()), Some(1));
}

#[test]
fn pool_exhaustion_drops_the_fifth_note() {
    let mut a = VoiceAllocator::new(4, 48000);
    assert_eq!(a.note_on(60, 100, 0, &template()), Some(0));
    assert_eq!(a.note_on(61, 100, 0, &template()), Some(1));
    assert_eq!(a.note_on(62, 100, 0, &template()), Some(2));
    assert_eq!(a.note_on(63, 100, 0, &template()), Some(3));
    assert_eq!(a.dropped_events, 0);
    // Five simultaneous distinct notes on a four-voice pool: the fifth
    // is dropped and counted; the four keep sounding.
    assert_eq!(a.note_on(64, 100, 0, &template()), None);
    assert_eq!(a.dropped_events, 1);
    let sounding = (0..4)
        .filter(|&i| a.voices[i].end_sample == SUSTAIN_FOREVER)
        .count();
    assert_eq!(sounding, 4);
    for i in 0..4 {
        assert_eq!(a.voices[i].note, 60 + i as i64);
    }
}

#[test]
fn note_off_never_lengthens_the_release() {
    let mut a = VoiceAllocator::new(4, 48000);
    a.note_on(60, 100, 0, &template());
    a.note_off(60, 10);
    assert_eq!(a.voices[0].end_sample, 10);
    // A later note-off with a longer window leaves the earlier end.
    a.note_off(60, 500);
    assert_eq!(a.voices[0].end_sample, 10);
    a.note_off(60, 3);
    assert_eq!(a.voices[0].end_sample, 3);
}

#[test]
fn note_off_without_a_match_is_ignored() {
    let mut a = VoiceAllocator::new(4, 48000);
    a.note_on(60, 100, 0, &template());
    a.note_off(72, 0);
    assert_eq!(a.voices[0].end_sample, SUSTAIN_FOREVER);
}

#[test]
fn note_on_snapshots_velocity_and_frequency() {
    let mut a = VoiceAllocator::new(4, 44100);
    a.note_on(69, 100, 7, &template());
    let v = &a.voices[0];
    // velocity / 255 + 1/2 in fixed point.
    assert_eq!(v.velocity, 100 * FP_ONE / 255 + FP_HALF);
    assert_eq!(v.freq, 167391);
    assert_eq!(v.start_sample, 7);
    assert_eq!(v.env, EnvelopeParams::new(10, 20, FP_HALF, 30));
}

#[test]
fn silent_voice_before_start_and_idle_pool() {
    let mut v = Voice::idle();
    assert_eq!(v.sample_at(0, 0, 0), 0);
    assert_eq!(v.sample_at(100, 7777, -7777), 0);
}
