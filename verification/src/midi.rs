//! Decoding of 3-byte MIDI channel-voice messages.

use vstd::prelude::*;

verus! {

/// Status value reported for a byte that is neither a voice nor a system
/// message status.
pub const LV2_MIDI_MSG_INVALID: u8 = 0;

/// Note Off status nibble.
pub const LV2_MIDI_MSG_NOTE_OFF: u8 = 0x80;

/// Note On status nibble.
pub const LV2_MIDI_MSG_NOTE_ON: u8 = 0x90;

/// Polyphonic key-pressure status nibble.
pub const LV2_MIDI_MSG_NOTE_PRESSURE: u8 = 0xA0;

/// Controller-change status nibble.
pub const LV2_MIDI_MSG_CONTROLLER: u8 = 0xB0;

/// Program-change status nibble.
pub const LV2_MIDI_MSG_PGM_CHANGE: u8 = 0xC0;

/// Channel-pressure status nibble.
pub const LV2_MIDI_MSG_CHANNEL_PRESSURE: u8 = 0xD0;

/// Pitch-bender status nibble.
pub const LV2_MIDI_MSG_BENDER: u8 = 0xE0;

/// True for the status byte of a channel-voice message.
pub open spec fn spec_is_voice_message(status: u8) -> bool {
    0x80 <= status < 0xF0
}

/// A channel-voice message's status byte lies in `[0x80, 0xF0)`.
pub fn midi_is_voice_message(status: u8) -> (r: bool)
    ensures
        r == spec_is_voice_message(status),
{
    status >= 0x80 && status < 0xF0
}

/// True for the status byte of a defined system message.
pub open spec fn spec_is_system_message(status: u8) -> bool {
    &&& status >= 0xF0
    &&& status != 0xF4
    &&& status != 0xF5
    &&& status != 0xF7
    &&& status != 0xF9
    &&& status != 0xFD
}

/// System messages occupy `[0xF0, 0xFF]` except five undefined values.
pub fn midi_is_system_message(status: u8) -> (r: bool)
    ensures
        r == spec_is_system_message(status),
{
    match status {
        0xF4 => false,
        0xF5 => false,
        0xF7 => false,
        0xF9 => false,
        0xFD => false,
        _ => status >= 0xF0,
    }
}

/// The message type of a status byte: the status nibble for a voice
/// message, the whole byte for a system message, and
/// [`LV2_MIDI_MSG_INVALID`] otherwise.
pub open spec fn spec_message_type(status: u8) -> u8 {
    if spec_is_voice_message(status) {
        status & 0xF0
    } else if spec_is_system_message(status) {
        status
    } else {
        LV2_MIDI_MSG_INVALID
    }
}

/// Extracts the message type from a status byte.
pub fn midi_message_type(status: u8) -> (r: u8)
    ensures
        r == spec_message_type(status),
{
    if midi_is_voice_message(status) {
        status & 0xF0
    } else if midi_is_system_message(status) {
        status
    } else {
        LV2_MIDI_MSG_INVALID
    }
}

/// A decoded MIDI channel-voice message.
#[derive(Debug, Clone, Copy, PartialEq, Eq, Structural)]
pub enum MidiEvent {
    AfterTouch { note_num: u8, pressure: u8 },
    Bender { value: u16 },
    ChannelPressure { pressure: u8 },
    Controller { controller_num: u8, controller_val: u8 },
    NoteOn { note_num: u8, velocity: u8 },
    NoteOff { note_num: u8, velocity: u8 },
    ProgramChange { num: u8 },
    Unknown,
}

/// The message encoded by a raw MIDI payload: the status nibble selects
/// the kind, and the data bytes carry pitch, velocity, pressure or
/// controller values. A payload whose length does not match its kind, or
/// whose kind is unrecognized, decodes to `Unknown`.
pub open spec fn spec_midi_decode(data: Seq<u8>) -> MidiEvent {
    if data.len() == 0 {
        MidiEvent::Unknown
    } else {
        let mt = spec_message_type(data[0]);
        if mt == LV2_MIDI_MSG_NOTE_PRESSURE && data.len() == 3 {
            MidiEvent::AfterTouch { note_num: data[1], pressure: data[2] }
        } else if mt == LV2_MIDI_MSG_BENDER && data.len() == 3 {
            MidiEvent::Bender { value: data[1] as u16 }
        } else if mt == LV2_MIDI_MSG_CHANNEL_PRESSURE && data.len() == 3 {
            MidiEvent::ChannelPressure { pressure: data[1] }
        } else if mt == LV2_MIDI_MSG_CONTROLLER && data.len() == 3 {
            MidiEvent::Controller { controller_num: data[1], controller_val: data[2] }
        } else if mt == LV2_MIDI_MSG_NOTE_ON && data.len() == 3 {
            MidiEvent::NoteOn { note_num: data[1], velocity: data[2] }
        } else if mt == LV2_MIDI_MSG_NOTE_OFF && data.len() == 3 {
            MidiEvent::NoteOff { note_num: data[1], velocity: data[2] }
        } else if mt == LV2_MIDI_MSG_PGM_CHANGE && data.len() == 2 {
            MidiEvent::ProgramChange { num: data[1] }
        } else {
            MidiEvent::Unknown
        }
    }
}

impl MidiEvent {
    /// Decodes a raw MIDI payload. Malformed payloads decode to
    /// `Unknown`; this function never fails.
    pub fn new(data: &[u8]) -> (r: MidiEvent)
        ensures
            r == spec_midi_decode(data@),
    {
        if data.len() == 0 {
            return MidiEvent::Unknown;
        }
        let mt = midi_message_type(data[0]);
        if mt == LV2_MIDI_MSG_NOTE_PRESSURE && data.len() == 3 {
            MidiEvent::AfterTouch { note_num: data[1], pressure: data[2] }
        } else if mt == LV2_MIDI_MSG_BENDER && data.len() == 3 {
            MidiEvent::Bender { value: data[1] as u16 }
        } else if mt == LV2_MIDI_MSG_CHANNEL_PRESSURE && data.len() == 3 {
            MidiEvent::ChannelPressure { pressure: data[1] }
        } else if mt == LV2_MIDI_MSG_CONTROLLER && data.len() == 3 {
            MidiEvent::Controller { controller_num: data[1], controller_val: data[2] }
        } else if mt == LV2_MIDI_MSG_NOTE_ON && data.len() == 3 {
            MidiEvent::NoteOn { note_num: data[1], velocity: data[2] }
        } else if mt == LV2_MIDI_MSG_NOTE_OFF && data.len() == 3 {
            MidiEvent::NoteOff { note_num: data[1], velocity: data[2] }
        } else if mt == LV2_MIDI_MSG_PGM_CHANGE && data.len() == 2 {
            MidiEvent::ProgramChange { num: data[1] }
        } else {
            MidiEvent::Unknown
        }
    }
}

} // verus!
