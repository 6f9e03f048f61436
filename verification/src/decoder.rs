//! Decoding of the host's event buffer into typed, time-stamped events.
//!
//! The buffer is a sequence atom: a 16-byte sequence header followed by
//! records. Each record is an 8-byte sample offset, an 8-byte payload
//! header (size and type code), the payload, and padding to the next
//! 8-byte boundary. Two payload kinds are recognized: MIDI channel-voice
//! messages and property objects; unrecognized kinds are skipped. A
//! record or property whose declared size would read past its region is
//! a decode error: it is counted and the remainder is skipped, and
//! decoding never panics.

#![allow(non_snake_case)]

use vstd::prelude::*;
use crate::atom::{spec_pad8, pad_size, spec_u32_at, spec_i64_at, spec_atom_at, spec_event_at,
    spec_property_at, read_u32, read_i64, read_event, read_property, LV2_Atom_Event,
    LV2_Atom_Property_Body};
use crate::event::{SynthEvent, SynthEventBody, SynthProperty};
use crate::midi::{MidiEvent, spec_midi_decode};
use vstd::slice::slice_subrange;

verus! {

/// Type and key codes used by the wire format, as mapped by the host.
#[derive(Debug, Clone, Copy, PartialEq, Eq, Structural)]
pub struct SamplerUris {
    pub atom_Blank: u32,
    pub atom_Int: u32,
    pub atom_Long: u32,
    pub atom_Float: u32,
    pub atom_Object: u32,
    pub atom_Path: u32,
    pub atom_Property: u32,
    pub atom_Resource: u32,
    pub atom_Sequence: u32,
    pub atom_URID: u32,
    pub atom_eventTransfer: u32,
    pub midi_Event: u32,
    pub patch_Set: u32,
    pub patch_property: u32,
    pub patch_value: u32,
    pub time_frame: u32,
    pub time_framesPerSecond: u32,
    pub time_speed: u32,
    pub time_Position: u32,
}

/// Ghost image of an event body: a decoded MIDI message or the sequence
/// of recognized properties of an object.
pub enum EventRep {
    Midi(MidiEvent),
    Props(Seq<SynthProperty>),
}

/// Ghost image of a decoded event.
pub struct EventView {
    pub time_frames: i64,
    pub body: EventRep,
}

impl View for SynthEventBody {
    type V = EventRep;

    open spec fn view(&self) -> EventRep {
        match self {
            SynthEventBody::MidiData(m) => EventRep::Midi(*m),
            SynthEventBody::SynthProperties(v) => EventRep::Props(v@),
        }
    }
}

impl View for SynthEvent {
    type V = EventView;

    open spec fn view(&self) -> EventView {
        EventView { time_frames: self.time_frames, body: self.body@ }
    }
}

/// The recognized property, if any, declared by the property header `p`
/// whose value bytes start at `voff`: a transport frame position (a
/// 64-bit integer) or a transport speed (kept as its raw 32-bit pattern).
pub open spec fn spec_prop_item(b: Seq<u8>, uris: SamplerUris, p: LV2_Atom_Property_Body, voff: int)
    -> Seq<SynthProperty> {
    if p.key == uris.time_frame && p.value.atom_type == uris.atom_Long && p.value.size == 8 {
        seq![SynthProperty::Frame(spec_i64_at(b, voff))]
    } else if p.key == uris.time_speed && p.value.atom_type == uris.atom_Float && p.value.size
        == 4 {
        seq![SynthProperty::Speed(spec_u32_at(b, voff))]
    } else {
        Seq::empty()
    }
}

/// Decodes the properties of an object laid out in `b[q..end)`: each is a
/// 16-byte property header followed by a padded value. Returns the
/// recognized properties in order and the number of decode errors. A
/// property whose declared size runs past `end` is one error and ends
/// the object.
pub open spec fn spec_props(b: Seq<u8>, uris: SamplerUris, q: int, end: int) -> (Seq<SynthProperty>,
    int)
    decreases end - q,
{
    if q >= end {
        (Seq::empty(), 0int)
    } else if q + 16 > end {
        (Seq::empty(), 1int)
    } else {
        let p = spec_property_at(b, q);
        if q + 16 + p.value.size > end {
            (Seq::empty(), 1int)
        } else {
            let next0 = q + 16 + spec_pad8(p.value.size as int);
            let next = if next0 > end {
                end
            } else {
                next0
            };
            let rest = spec_props(b, uris, next, end);
            (spec_prop_item(b, uris, p, q + 16) + rest.0, rest.1)
        }
    }
}

/// The events contributed by the single record whose header `h` sits at
/// `pos`, together with the errors found inside it.
pub open spec fn spec_record_item(b: Seq<u8>, uris: SamplerUris, h: LV2_Atom_Event, pos: int) -> (
    Seq<EventView>, int) {
    let payload = pos + 16;
    let rec_end = payload + h.body.size;
    if h.body.atom_type == uris.midi_Event {
        (
            seq![
                EventView {
                    time_frames: h.time_frames,
                    body: EventRep::Midi(spec_midi_decode(b.subrange(payload, rec_end))),
                },
            ],
            0int,
        )
    } else if h.body.atom_type == uris.atom_Object || h.body.atom_type == uris.atom_Blank {
        if h.body.size >= 8 {
            let pr = spec_props(b, uris, payload + 8, rec_end);
            (seq![EventView { time_frames: h.time_frames, body: EventRep::Props(pr.0) }], pr.1)
        } else {
            (Seq::empty(), 1int)
        }
    } else {
        (Seq::empty(), 0int)
    }
}

/// Decodes the records laid out in `b[pos..end)`. Returns the decoded
/// events in buffer order and the number of decode errors. A record
/// whose declared size runs past `end` is one error and ends decoding;
/// a record of unrecognized type is skipped silently.
pub open spec fn spec_records(b: Seq<u8>, uris: SamplerUris, pos: int, end: int) -> (Seq<EventView>,
    int)
    decreases end - pos,
{
    if pos >= end {
        (Seq::empty(), 0int)
    } else if pos + 16 > end {
        (Seq::empty(), 1int)
    } else {
        let h = spec_event_at(b, pos);
        if pos + 16 + h.body.size > end {
            (Seq::empty(), 1int)
        } else {
            let next0 = pos + 16 + spec_pad8(h.body.size as int);
            let next = if next0 > end {
                end
            } else {
                next0
            };
            let item = spec_record_item(b, uris, h, pos);
            let rest = spec_records(b, uris, next, end);
            (item.0 + rest.0, item.1 + rest.1)
        }
    }
}

/// What decoding a whole buffer yields: the buffer must hold at least a
/// sequence header, and the sequence's declared size must fit in the
/// buffer; otherwise the buffer itself is one decode error.
pub open spec fn spec_decode(b: Seq<u8>, uris: SamplerUris) -> (Seq<EventView>, int) {
    if b.len() < 16 {
        (Seq::empty(), 1int)
    } else {
        let size = spec_atom_at(b, 0).size;
        if 8 + size > b.len() {
            (Seq::empty(), 1int)
        } else {
            spec_records(b, uris, 16, 8 + size)
        }
    }
}

/// One record yielded by [`AtomSequenceIter`]: the payload's type code,
/// the record's sample offset, and where the payload lies in the buffer.
#[derive(Debug, Clone, Copy, PartialEq, Eq, Structural)]
pub struct SequenceData {
    pub data_type: u32,
    pub time_frames: i64,
    pub offset: usize,
    pub size: usize,
}

/// A bounds-checked cursor over the records of a sequence buffer.
/// It yields one [`SequenceData`] per well-formed record and stops at
/// the first record whose header or declared payload would read past
/// the sequence's end.
#[derive(Debug, Clone, Copy, PartialEq, Eq, Structural)]
pub struct AtomSequenceIter {
    /// Offset of the next record header.
    pub next: usize,
    /// Offset one past the last sequence byte (clamped to the buffer).
    pub total: usize,
    /// The sequence's time-stamp unit code.
    pub unit: u32,
}

impl AtomSequenceIter {
    /// Positions a cursor on the first record of the sequence atom in
    /// `buf`. A buffer too short for the sequence header, or whose
    /// declared size overruns the buffer, yields an exhausted cursor.
    pub fn new(buf: &[u8]) -> (it: AtomSequenceIter)
        ensures
            it.next == 16,
            buf@.len() >= 16 && 8 + spec_atom_at(buf@, 0).size <= buf@.len() ==> {
                &&& it.total == 8 + spec_atom_at(buf@, 0).size
                &&& it.unit == spec_u32_at(buf@, 8)
            },
            !(buf@.len() >= 16 && 8 + spec_atom_at(buf@, 0).size <= buf@.len()) ==> it.total == 0,
            it.total <= buf@.len(),
    {
        let n: usize = buf.len();
        if n < 16 {
            return AtomSequenceIter { next: 16, total: 0, unit: 0 };
        }
        let size: u32 = read_u32(buf, 0);
        if (size as u64) > (n - 8) as u64 {
            return AtomSequenceIter { next: 16, total: 0, unit: 0 };
        }
        AtomSequenceIter { next: 16, total: 8 + size as usize, unit: read_u32(buf, 8) }
    }

    /// The unit code of the sequence's time stamps.
    pub fn get_time_unit_urid(&self) -> (r: u32)
        ensures
            r == self.unit,
    {
        self.unit
    }

    /// Advances past the next record and describes it. Returns `None`,
    /// leaving the cursor unchanged, once no further whole record fits
    /// before the sequence's end.
    pub fn next_record(&mut self, buf: &[u8]) -> (r: Option<SequenceData>)
        requires
            old(self).total <= buf@.len(),
        ensures
            final(self).total == old(self).total,
            final(self).unit == old(self).unit,
            ({
                let pos = old(self).next as int;
                let end = old(self).total as int;
                if pos + 16 > end {
                    r is None && final(self).next == old(self).next
                } else {
                    let h = spec_event_at(buf@, pos);
                    if pos + 16 + h.body.size > end {
                        r is None && final(self).next == old(self).next
                    } else {
                        let next0 = pos + 16 + spec_pad8(h.body.size as int);
                        &&& r == Some(
                            SequenceData {
                                data_type: h.body.atom_type,
                                time_frames: h.time_frames,
                                offset: (pos + 16) as usize,
                                size: h.body.size as usize,
                            },
                        )
                        &&& final(self).next == if next0 > end {
                            end
                        } else {
                            next0
                        }
                    }
                }
            }),
    {
        let pos = self.next;
        let end = self.total;
        if pos >= end || end - pos < 16 {
            return None;
        }
        let h = read_event(buf, pos);
        if (h.body.size as u64) > (end - pos - 16) as u64 {
            return None;
        }
        let padded: usize = pad_size(h.body.size);
        self.next = if padded > end - (pos + 16) {
            end
        } else {
            pos + 16 + padded
        };
        Some(
            SequenceData {
                data_type: h.body.atom_type,
                time_frames: h.time_frames,
                offset: pos + 16,
                size: h.body.size as usize,
            },
        )
    }
}

/// Decodes the recognized properties of the object payload occupying
/// `buf[start..start+8..obj_end)` (the object body header has already
/// been read). Returns the properties in order and a decode-error count.
fn extract_object_props(buf: &[u8], start: usize, obj_end: usize, uris: &SamplerUris) -> (r: (Vec<
    SynthProperty>, u64))
    requires
        start <= obj_end <= buf@.len(),
    ensures
        (r.0@, r.1 as int) == spec_props(buf@, *uris, start as int, obj_end as int),
        r.1 <= 1,
{
    let mut props: Vec<SynthProperty> = Vec::new();
    let mut q: usize = start;
    loop
        invariant
            start <= q <= obj_end <= buf@.len(),
            spec_props(buf@, *uris, start as int, obj_end as int).0 == props@ + spec_props(
                buf@,
                *uris,
                q as int,
                obj_end as int,
            ).0,
            spec_props(buf@, *uris, start as int, obj_end as int).1 == spec_props(
                buf@,
                *uris,
                q as int,
                obj_end as int,
            ).1,
        decreases obj_end - q,
    {
        if q >= obj_end {
            proof {
                assert(spec_props(buf@, *uris, q as int, obj_end as int).0 =~= Seq::empty());
                assert(props@ + Seq::<SynthProperty>::empty() =~= props@);
            }
            return (props, 0);
        }
        if obj_end - q < 16 {
            proof {
                assert(props@ + Seq::<SynthProperty>::empty() =~= props@);
            }
            return (props, 1);
        }
        let p = read_property(buf, q);
        if (p.value.size as u64) > (obj_end - q - 16) as u64 {
            proof {
                assert(props@ + Seq::<SynthProperty>::empty() =~= props@);
            }
            return (props, 1);
        }
        let voff: usize = q + 16;
        if p.key == uris.time_frame && p.value.atom_type == uris.atom_Long && p.value.size == 8 {
            props.push(SynthProperty::Frame(read_i64(buf, voff)));
        } else if p.key == uris.time_speed && p.value.atom_type == uris.atom_Float && p.value.size
            == 4 {
            props.push(SynthProperty::Speed(read_u32(buf, voff)));
        }
        let padded: usize = pad_size(p.value.size);
        let next: usize = if padded > obj_end - voff {
            obj_end
        } else {
            voff + padded
        };
        proof {
            let rest = spec_props(buf@, *uris, next as int, obj_end as int);
            let here = spec_props(buf@, *uris, q as int, obj_end as int);
            assert(here.0 == spec_prop_item(buf@, *uris, spec_property_at(buf@, q as int), voff as int)
                + rest.0 && here.1 == rest.1);
            assert(spec_props(buf@, *uris, start as int, obj_end as int).0 == props@ + rest.0);
        }
        q = next;
    }
}

/// Decodes the records of the event buffer `buf` (a whole sequence atom,
/// its 16-byte header included). Returns the decoded events in buffer
/// order together with the number of malformed records and properties
/// encountered; it never panics, whatever bytes the host supplies.
pub fn extract_sequence(buf: &[u8], uris: &SamplerUris) -> (r: (Vec<SynthEvent>, u64))
    ensures
        r.0@.map_values(|e: SynthEvent| e@) == spec_decode(buf@, *uris).0,
        r.1 as int == spec_decode(buf@, *uris).1,
{
    let n: usize = buf.len();
    let mut events: Vec<SynthEvent> = Vec::new();
    if n < 16 {
        proof {
            assert(events@.map_values(|e: SynthEvent| e@) =~= Seq::<EventView>::empty());
        }
        return (events, 1);
    }
    let size: u32 = read_u32(buf, 0);
    if (size as u64) > (n - 8) as u64 {
        proof {
            assert(events@.map_values(|e: SynthEvent| e@) =~= Seq::<EventView>::empty());
        }
        return (events, 1);
    }
    if size < 8 {
        proof {
            assert(events@.map_values(|e: SynthEvent| e@) =~= Seq::<EventView>::empty());
        }
        return (events, 0);
    }
    let end: usize = 8 + size as usize;
    let mut errors: u64 = 0;
    let mut pos: usize = 16;
    loop
        invariant
            16 <= pos <= end <= buf@.len() <= usize::MAX,
            end == 8 + spec_atom_at(buf@, 0).size,
            spec_records(buf@, *uris, 16, end as int).0 =~= events@.map_values(
                |e: SynthEvent| e@,
            ) + spec_records(buf@, *uris, pos as int, end as int).0,
            spec_records(buf@, *uris, 16, end as int).1 == errors + spec_records(
                buf@,
                *uris,
                pos as int,
                end as int,
            ).1,
            errors <= pos,
        decreases end - pos,
    {
        if pos >= end {
            proof {
                let ghost_map = events@.map_values(|e: SynthEvent| e@);
                assert(spec_records(buf@, *uris, pos as int, end as int).0 =~= Seq::empty());
                assert(ghost_map + Seq::<EventView>::empty() =~= ghost_map);
            }
            return (events, errors);
        }
        if end - pos < 16 {
            proof {
                let ghost_map = events@.map_values(|e: SynthEvent| e@);
                assert(ghost_map + Seq::<EventView>::empty() =~= ghost_map);
            }
            return (events, errors + 1);
        }
        let h = read_event(buf, pos);
        if (h.body.size as u64) > (end - pos - 16) as u64 {
            proof {
                let ghost_map = events@.map_values(|e: SynthEvent| e@);
                assert(ghost_map + Seq::<EventView>::empty() =~= ghost_map);
            }
            return (events, errors + 1);
        }
        let payload: usize = pos + 16;
        let rec_end: usize = payload + h.body.size as usize;
        let ghost here = spec_records(buf@, *uris, pos as int, end as int);
        let ghost item = spec_record_item(buf@, *uris, h, pos as int);
        if h.body.atom_type == uris.midi_Event {
            let data = slice_subrange(buf, payload, rec_end);
            events.push(SynthEvent::new(h.time_frames, SynthEventBody::MidiData(MidiEvent::new(data))));
        } else if h.body.atom_type == uris.atom_Object || h.body.atom_type == uris.atom_Blank {
            if h.body.size >= 8 {
                let (props, perrs) = extract_object_props(buf, payload + 8, rec_end, uris);
                events.push(SynthEvent::new(h.time_frames, SynthEventBody::SynthProperties(props)));
                errors = errors + perrs;
            } else {
                errors = errors + 1;
            }
        }
        let padded: usize = pad_size(h.body.size);
        let next: usize = if padded > end - payload {
            end
        } else {
            payload + padded
        };
        proof {
            let rest = spec_records(buf@, *uris, next as int, end as int);
            assert(here.0 == item.0 + rest.0 && here.1 == item.1 + rest.1);
            assert(spec_records(buf@, *uris, 16, end as int).0 =~= events@.map_values(
                |e: SynthEvent| e@,
            ) + rest.0);
        }
        pos = next;
    }
}

} // verus!
