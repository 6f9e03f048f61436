//! The engine end to end: events in, samples out.

use synthz::event::{SynthEvent, SynthEventBody, SynthProperty};
use synthz::fixed::{FP_HALF, FP_ONE};
use synthz::midi::MidiEvent;
use synthz::synth::{ToneIterator, VOICE_POOL};
use synthz::voice::SUSTAIN_FOREVER;

fn note_on(time: i64, pitch: u8, velocity: u8) -> SynthEvent {
    SynthEvent::new(
        time,
        SynthEventBody::MidiData(MidiEvent::NoteOn {
            note_num: pitch,
            velocity,
        }),
    )
}

fn note_off(time: i64, pitch: u8) -> SynthEvent {
    SynthEvent::new(
        time,
        SynthEventBody::MidiData(MidiEvent::NoteOff {
            note_num: pitch,
            velocity: 0,
        }),
    )
}

fn controls(sustain: i64) -> SynthEvent {
    SynthEvent::new(
        0,
        SynthEventBody::SynthProperties(vec![
            SynthProperty::Waveform(0),
            SynthProperty::Envelope(0, 0, sustain, 0),
        ]),
    )
}

#[test]
fn fresh_engine_renders_silence() {
    let mut ti = ToneIterator::new(48000);
    let out = ti.feed(64);
    assert_eq!(out.len(), 64);
    for s in out {
        assert_eq!(s, 0);
    }
}

#[test]
fn a_note_makes_sound() {
    let mut ti = ToneIterator::new(48000);
    ti.add_data(vec![controls(FP_ONE), note_on(0, 69, 100)]);
    let out = ti.feed(256);
    assert_eq!(out.len(), 256);
    assert!(out.iter().any(|&s| s != 0));
    // Samples stay within a voice's full scale here: one sine voice at
    // most unit gain.
    assert!(out.iter().all(|&s| s.abs() <= FP_ONE));
}

#[test]
fn released_note_decays_to_silence() {
    let mut ti = ToneIterator::new(48000);
    ti.add_data(vec![controls(FP_ONE), note_on(0, 60, 100)]);
    ti.feed(64);
    ti.add_data(vec![note_off(0, 60)]);
    // Release is zero samples long: the voice is silent immediately.
    let out = ti.feed(64);
    assert!(out.iter().all(|&s| s == 0));
}

#[test]
fn controls_snapshot_at_trigger_time() {
    let mut ti = ToneIterator::new(48000);
    ti.add_data(vec![controls(FP_ONE), note_on(0, 60, 100)]);
    assert_eq!(ti.voices.voices[0].env.sustain, FP_ONE);
    // Later control changes do not touch the sounding voice.
    ti.add_data(vec![controls(FP_HALF)]);
    assert_eq!(ti.voices.voices[0].env.sustain, FP_ONE);
    assert_eq!(ti.controls.sustain, FP_HALF);
}

#[test]
fn pool_exhaustion_is_counted_not_fatal() {
    let mut ti = ToneIterator::new(48000);
    let mut events = vec![controls(FP_ONE)];
    for p in 0..5u8 {
        events.push(note_on(0, 60 + p, 100));
    }
    ti.add_data(events);
    assert_eq!(ti.voices.dropped_events, 1);
    let sounding = (0..VOICE_POOL)
        .filter(|&i| ti.voices.voices[i].end_sample == SUSTAIN_FOREVER)
        .count();
    assert_eq!(sounding, 4);
    let out = ti.feed(32);
    assert_eq!(out.len(), 32);
}

#[test]
fn filter_enabled_voice_builds_a_cascade() {
    let mut ti = ToneIterator::new(48000);
    ti.add_data(vec![
        SynthEvent::new(
            0,
            SynthEventBody::SynthProperties(vec![
                SynthProperty::Envelope(0, 0, FP_ONE, 0),
                SynthProperty::FilterFreq(1000 * FP_ONE),
                SynthProperty::FilterOn(true),
            ]),
        ),
        note_on(0, 60, 100),
    ]);
    assert!(ti.voices.voices[0].filter.is_some());
    // A degenerate cutoff falls back to bypass instead of failing.
    ti.add_data(vec![
        SynthEvent::new(
            0,
            SynthEventBody::SynthProperties(vec![SynthProperty::FilterFreq(-5)]),
        ),
        note_on(0, 61, 100),
    ]);
    assert!(ti.voices.voices[1].filter.is_none());
    // The rejected design is reported on the configuration-error
    // counter; the accepted one was not.
    assert_eq!(ti.config_errors, 1);
    let out = ti.feed(64);
    assert_eq!(out.len(), 64);
    assert_eq!(ti.config_errors, 1);
}

#[test]
fn render_block_handles_any_position() {
    let mut ti = ToneIterator::new(48000);
    let out = ti.render_block(128);
    assert_eq!(out.len(), 128);
    assert_eq!(ti.voices.current_sample, 128);
}

#[test]
fn noise_voice_stays_in_range() {
    let mut ti = ToneIterator::new(48000);
    ti.add_data(vec![
        SynthEvent::new(
            0,
            SynthEventBody::SynthProperties(vec![
                SynthProperty::Waveform(4 * FP_ONE / 5 + 8),
                SynthProperty::Envelope(0, 0, FP_ONE, 0),
            ]),
        ),
        note_on(0, 60, 100),
    ]);
    let out = ti.feed(256);
    // The random draw is clamped to full scale before the envelope
    // and velocity gains shrink it further.
    assert!(out.iter().all(|&s| s.abs() <= FP_ONE));
    assert!(out.iter().any(|&s| s != 0));
}
