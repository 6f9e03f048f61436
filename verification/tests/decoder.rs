//! Wire-format decoding: round trips, malformed records, MIDI payloads.

use synthz::atom::pad_size;
use synthz::decoder::{extract_sequence, AtomSequenceIter, SamplerUris};
use synthz::event::{SynthEventBody, SynthProperty};
use synthz::midi::{midi_is_system_message, midi_is_voice_message, midi_message_type, MidiEvent};

fn test_uris() -> SamplerUris {
    SamplerUris {
        atom_Blank: 1,
        atom_Int: 2,
        atom_Long: 3,
        atom_Float: 4,
        atom_Object: 5,
        atom_Path: 6,
        atom_Property: 7,
        atom_Resource: 8,
        atom_Sequence: 9,
        atom_URID: 10,
        atom_eventTransfer: 11,
        midi_Event: 12,
        patch_Set: 13,
        patch_property: 14,
        patch_value: 15,
        time_frame: 16,
        time_framesPerSecond: 17,
        time_speed: 18,
        time_Position: 19,
    }
}

fn push_u32(buf: &mut Vec<u8>, v: u32) {
    for b in v.to_le_bytes() {
        buf.push(b);
    }
}

fn push_i64(buf: &mut Vec<u8>, v: i64) {
    for b in v.to_le_bytes() {
        buf.push(b);
    }
}

/// Starts a sequence buffer; the size field is patched at the end.
fn begin_sequence() -> Vec<u8> {
    let mut buf = Vec::new();
    push_u32(&mut buf, 0); // atom.size, patched later
    push_u32(&mut buf, 9); // atom.type: sequence
    push_u32(&mut buf, 0); // body.unit
    push_u32(&mut buf, 0); // body.pad
    buf
}

fn finish_sequence(buf: &mut Vec<u8>) {
    let size = (buf.len() - 8) as u32;
    let bytes = size.to_le_bytes();
    for (i, b) in bytes.iter().enumerate() {
        buf[i] = *b;
    }
}

fn push_midi_record(buf: &mut Vec<u8>, time: i64, msg: &[u8]) {
    push_i64(buf, time);
    push_u32(buf, msg.len() as u32);
    push_u32(buf, 12); // midi_Event
    for b in msg {
        buf.push(*b);
    }
    while buf.len() % 8 != 0 {
        buf.push(0);
    }
}

/// One object record holding a transport frame and a transport speed
/// property.
fn push_position_record(buf: &mut Vec<u8>, time: i64, frame: i64, speed_bits: u32) {
    push_i64(buf, time);
    // object body (8) + frame property (16 + 8) + speed property (16 + 8)
    push_u32(buf, 8 + 24 + 24);
    push_u32(buf, 5); // atom_Object
    push_u32(buf, 0); // object id
    push_u32(buf, 19); // otype: time_Position
    push_u32(buf, 16); // key: time_frame
    push_u32(buf, 0); // context
    push_u32(buf, 8); // value size
    push_u32(buf, 3); // value type: atom_Long
    push_i64(buf, frame);
    push_u32(buf, 18); // key: time_speed
    push_u32(buf, 0); // context
    push_u32(buf, 4); // value size
    push_u32(buf, 4); // value type: atom_Float
    push_u32(buf, speed_bits);
    while buf.len() % 8 != 0 {
        buf.push(0);
    }
}

#[test]
fn decoder_round_trip() {
    let mut buf = begin_sequence();
    push_position_record(&mut buf, 3, 12345, 0x3f800000);
    push_midi_record(&mut buf, 7, &[0x90, 60, 100]);
    finish_sequence(&mut buf);
    let uris = test_uris();
    let (events, errors) = extract_sequence(&buf, &uris);
    assert_eq!(errors, 0);
    assert_eq!(events.len(), 2);
    assert_eq!(events[0].time_frames, 3);
    match &events[0].body {
        SynthEventBody::SynthProperties(props) => {
            assert_eq!(props.len(), 2);
            assert_eq!(props[0], SynthProperty::Frame(12345));
            assert_eq!(props[1], SynthProperty::Speed(0x3f800000));
        }
        _ => panic!("expected a property event first"),
    }
    assert_eq!(events[1].time_frames, 7);
    match &events[1].body {
        SynthEventBody::MidiData(m) => {
            assert_eq!(
                *m,
                MidiEvent::NoteOn {
                    note_num: 60,
                    velocity: 100
                }
            );
        }
        _ => panic!("expected a MIDI event second"),
    }
}

#[test]
fn decoder_truncated_record_counts_one_error() {
    let mut buf = begin_sequence();
    push_midi_record(&mut buf, 0, &[0x90, 60, 100]);
    // A record whose declared size reads past the end of the buffer.
    push_i64(&mut buf, 5);
    push_u32(&mut buf, 1000);
    push_u32(&mut buf, 12);
    buf.push(0x80);
    while buf.len() % 8 != 0 {
        buf.push(0);
    }
    finish_sequence(&mut buf);
    let uris = test_uris();
    let (events, errors) = extract_sequence(&buf, &uris);
    assert_eq!(events.len(), 1);
    assert_eq!(errors, 1);
}

#[test]
fn decoder_short_buffer_is_one_error() {
    let uris = test_uris();
    let (events, errors) = extract_sequence(&[0u8; 7], &uris);
    assert_eq!(events.len(), 0);
    assert_eq!(errors, 1);
}

#[test]
fn decoder_skips_unknown_record_types() {
    let mut buf = begin_sequence();
    push_i64(&mut buf, 0);
    push_u32(&mut buf, 4);
    push_u32(&mut buf, 777); // unrecognized payload type
    push_u32(&mut buf, 0xdeadbeef);
    while buf.len() % 8 != 0 {
        buf.push(0);
    }
    push_midi_record(&mut buf, 2, &[0x80, 60, 0]);
    finish_sequence(&mut buf);
    let (events, errors) = extract_sequence(&buf, &test_uris());
    assert_eq!(errors, 0);
    assert_eq!(events.len(), 1);
    match &events[0].body {
        SynthEventBody::MidiData(m) => assert_eq!(
            *m,
            MidiEvent::NoteOff {
                note_num: 60,
                velocity: 0
            }
        ),
        _ => panic!("expected the MIDI event"),
    }
}

#[test]
fn decoder_skips_unknown_property_keys() {
    let mut buf = begin_sequence();
    push_i64(&mut buf, 0);
    push_u32(&mut buf, 8 + 24);
    push_u32(&mut buf, 5); // atom_Object
    push_u32(&mut buf, 0);
    push_u32(&mut buf, 19);
    push_u32(&mut buf, 999); // unrecognized key
    push_u32(&mut buf, 0);
    push_u32(&mut buf, 8);
    push_u32(&mut buf, 3);
    push_i64(&mut buf, 42);
    finish_sequence(&mut buf);
    let (events, errors) = extract_sequence(&buf, &test_uris());
    assert_eq!(errors, 0);
    assert_eq!(events.len(), 1);
    match &events[0].body {
        SynthEventBody::SynthProperties(props) => assert_eq!(props.len(), 0),
        _ => panic!("expected a property event"),
    }
}

#[test]
fn sequence_iter_walks_records() {
    let mut buf = begin_sequence();
    push_midi_record(&mut buf, 1, &[0x90, 10, 20]);
    push_midi_record(&mut buf, 9, &[0x80, 10, 0]);
    finish_sequence(&mut buf);
    let mut it = AtomSequenceIter::new(&buf);
    assert_eq!(it.get_time_unit_urid(), 0);
    let first = it.next_record(&buf).unwrap();
    assert_eq!(first.time_frames, 1);
    assert_eq!(first.data_type, 12);
    assert_eq!(first.size, 3);
    assert_eq!(first.offset, 32);
    let second = it.next_record(&buf).unwrap();
    assert_eq!(second.time_frames, 9);
    assert!(it.next_record(&buf).is_none());
}

#[test]
fn pad_size_rounds_to_eight() {
    assert_eq!(pad_size(0), 0);
    assert_eq!(pad_size(1), 8);
    assert_eq!(pad_size(3), 8);
    assert_eq!(pad_size(8), 8);
    assert_eq!(pad_size(9), 16);
    assert_eq!(pad_size(24), 24);
}

#[test]
fn midi_payload_decoding() {
    assert_eq!(
        MidiEvent::new(&[0x93, 64, 90]),
        MidiEvent::NoteOn {
            note_num: 64,
            velocity: 90
        }
    );
    assert_eq!(
        MidiEvent::new(&[0x81, 64, 0]),
        MidiEvent::NoteOff {
            note_num: 64,
            velocity: 0
        }
    );
    assert_eq!(
        MidiEvent::new(&[0xb0, 7, 100]),
        MidiEvent::Controller {
            controller_num: 7,
            controller_val: 100
        }
    );
    assert_eq!(MidiEvent::new(&[0xc2, 5]), MidiEvent::ProgramChange { num: 5 });
    assert_eq!(MidiEvent::new(&[0xe0, 33, 1]), MidiEvent::Bender { value: 33 });
    assert_eq!(
        MidiEvent::new(&[0xa0, 60, 9]),
        MidiEvent::AfterTouch {
            note_num: 60,
            pressure: 9
        }
    );
    assert_eq!(
        MidiEvent::new(&[0xd4, 17, 0]),
        MidiEvent::ChannelPressure { pressure: 17 }
    );
    // Wrong length or unrecognized status: Unknown, never a panic.
    assert_eq!(MidiEvent::new(&[0x90, 60]), MidiEvent::Unknown);
    assert_eq!(MidiEvent::new(&[]), MidiEvent::Unknown);
    assert_eq!(MidiEvent::new(&[0xf4, 0, 0]), MidiEvent::Unknown);
}

#[test]
fn midi_status_classification() {
    assert!(midi_is_voice_message(0x80));
    assert!(midi_is_voice_message(0xef));
    assert!(!midi_is_voice_message(0x7f));
    assert!(!midi_is_voice_message(0xf0));
    assert!(midi_is_system_message(0xf0));
    assert!(midi_is_system_message(0xf8));
    assert!(!midi_is_system_message(0xf4));
    assert!(!midi_is_system_message(0xfd));
    assert_eq!(midi_message_type(0x93), 0x90);
    assert_eq!(midi_message_type(0xf8), 0xf8);
    assert_eq!(midi_message_type(0x45), 0);
}
