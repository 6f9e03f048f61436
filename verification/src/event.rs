//! Typed, time-stamped events handed to the synthesizer each block.

use vstd::prelude::*;
use crate::midi::MidiEvent;

verus! {

/// One control property carried by an event or sampled from the host's
/// control ports. Times are in samples, values in fixed point
/// (see [`crate::fixed`]); `Speed` keeps the raw 32-bit pattern of the
/// transport-speed field as decoded from the wire.
#[derive(Debug, Clone, Copy, PartialEq, Eq, Structural)]
pub enum SynthProperty {
    /// Transport frame position.
    Frame(i64),
    /// Transport speed, as the undecoded 32-bit wire pattern.
    Speed(u32),
    /// Waveform selector in `[0, FP_ONE)`.
    Waveform(i64),
    /// Secondary oscillator: waveform selector, depth, frequency multiplier.
    Secondary(i64, i64, i64),
    /// Envelope attack, decay, sustain fraction, release.
    Envelope(i64, i64, i64, i64),
    /// Filter cutoff frequency in fixed-point Hz.
    FilterFreq(i64),
    /// Whether the filter stage is enabled.
    FilterOn(bool),
}

/// The payload of one event.
#[derive(Debug, Clone)]
pub enum SynthEventBody {
    /// A decoded MIDI channel-voice message.
    MidiData(MidiEvent),
    /// A list of control properties.
    SynthProperties(Vec<SynthProperty>),
}

/// A time-stamped event within a block; `time_frames` is the sample
/// offset from the start of the block.
#[derive(Debug, Clone)]
pub struct SynthEvent {
    pub time_frames: i64,
    pub body: SynthEventBody,
}

impl SynthEvent {
    /// Pairs a sample offset with an event payload.
    pub fn new(time_frames: i64, body: SynthEventBody) -> (r: SynthEvent)
        ensures
            r.time_frames == time_frames,
            r.body == body,
    {
        SynthEvent { time_frames, body }
    }
}

} // verus!
