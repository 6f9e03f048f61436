//! Wire-format headers of the event buffer.
//!
//! The event buffer is a padded sequence of records. Every header field is
//! little-endian, and every payload is padded to an 8-byte boundary.

#![allow(non_camel_case_types)]

use vstd::prelude::*;
use vstd::bytes::{spec_u32_from_le_bytes, spec_u64_from_le_bytes, u32_from_le_bytes,
    u64_from_le_bytes};
use vstd::slice::slice_subrange;

verus! {

/// Smallest multiple of 8 that is at least `n`.
pub open spec fn spec_pad8(n: int) -> int {
    ((n + 7) / 8) * 8
}

/// Rounds a payload size up to the next 8-byte boundary.
pub fn pad_size(size: u32) -> (r: usize)
    requires
        size + 7 <= usize::MAX,
    ensures
        r == spec_pad8(size as int),
        size <= r < size + 8,
        r % 8 == 0,
{
    let r: usize = ((size as usize) + 7) / 8 * 8;
    proof {
        let n = size as int;
        assert(((n + 7) / 8) * 8 % 8 == 0) by (nonlinear_arith);
        assert(n <= ((n + 7) / 8) * 8 < n + 8) by (nonlinear_arith);
    }
    r
}

/// Common header of every value in the buffer: payload size in bytes
/// (excluding this header) and a type code.
#[derive(Debug, Clone, Copy, PartialEq, Eq, Structural)]
pub struct LV2_Atom {
    pub size: u32,
    pub atom_type: u32,
}

/// Header of one record in a sequence: a sample offset followed by the
/// header of the payload.
#[derive(Debug, Clone, Copy, PartialEq, Eq, Structural)]
pub struct LV2_Atom_Event {
    pub time_frames: i64,
    pub body: LV2_Atom,
}

/// Body header of a sequence: the unit of its time stamps plus padding.
#[derive(Debug, Clone, Copy, PartialEq, Eq, Structural)]
pub struct LV2_Atom_Sequence_Body {
    pub unit: u32,
    pub pad: u32,
}

/// Header of a whole sequence buffer.
#[derive(Debug, Clone, Copy, PartialEq, Eq, Structural)]
pub struct LV2_Atom_Sequence {
    pub atom: LV2_Atom,
    pub body: LV2_Atom_Sequence_Body,
}

/// Header of one property inside an object: key, context, and the header
/// of the value that follows.
#[derive(Debug, Clone, Copy, PartialEq, Eq, Structural)]
pub struct LV2_Atom_Property_Body {
    pub key: u32,
    pub context: u32,
    pub value: LV2_Atom,
}

/// A free-standing property: an atom header followed by the property body.
#[derive(Debug, Clone, Copy, PartialEq, Eq, Structural)]
pub struct LV2_Atom_Property {
    pub atom: LV2_Atom,
    pub body: LV2_Atom_Property_Body,
}

/// Body header of an object: an identifier and the object's type code.
#[derive(Debug, Clone, Copy, PartialEq, Eq, Structural)]
pub struct LV2_Atom_Object_Body {
    pub id: u32,
    pub otype: u32,
}

/// A free-standing object: an atom header followed by the object body.
#[derive(Debug, Clone, Copy, PartialEq, Eq, Structural)]
pub struct LV2_Atom_Object {
    pub atom: LV2_Atom,
    pub body: LV2_Atom_Object_Body,
}

/// The `u32` stored little-endian at offset `off`.
pub open spec fn spec_u32_at(b: Seq<u8>, off: int) -> u32 {
    spec_u32_from_le_bytes(b.subrange(off, off + 4))
}

/// The `u64` stored little-endian at offset `off`.
pub open spec fn spec_u64_at(b: Seq<u8>, off: int) -> u64 {
    spec_u64_from_le_bytes(b.subrange(off, off + 8))
}

/// The `i64` stored little-endian (two's complement) at offset `off`.
pub open spec fn spec_i64_at(b: Seq<u8>, off: int) -> i64 {
    spec_u64_at(b, off) as i64
}

/// The atom header stored at offset `off`.
pub open spec fn spec_atom_at(b: Seq<u8>, off: int) -> LV2_Atom {
    LV2_Atom { size: spec_u32_at(b, off), atom_type: spec_u32_at(b, off + 4) }
}

/// The record header stored at offset `off`.
pub open spec fn spec_event_at(b: Seq<u8>, off: int) -> LV2_Atom_Event {
    LV2_Atom_Event { time_frames: spec_i64_at(b, off), body: spec_atom_at(b, off + 8) }
}

/// The sequence header stored at offset `off`.
pub open spec fn spec_sequence_at(b: Seq<u8>, off: int) -> LV2_Atom_Sequence {
    LV2_Atom_Sequence {
        atom: spec_atom_at(b, off),
        body: LV2_Atom_Sequence_Body {
            unit: spec_u32_at(b, off + 8),
            pad: spec_u32_at(b, off + 12),
        },
    }
}

/// The property header stored at offset `off`.
pub open spec fn spec_property_at(b: Seq<u8>, off: int) -> LV2_Atom_Property_Body {
    LV2_Atom_Property_Body {
        key: spec_u32_at(b, off),
        context: spec_u32_at(b, off + 4),
        value: spec_atom_at(b, off + 8),
    }
}

/// The object body header stored at offset `off`.
pub open spec fn spec_object_at(b: Seq<u8>, off: int) -> LV2_Atom_Object_Body {
    LV2_Atom_Object_Body { id: spec_u32_at(b, off), otype: spec_u32_at(b, off + 4) }
}

/// Reads the little-endian `u32` at `off`.
pub fn read_u32(buf: &[u8], off: usize) -> (r: u32)
    requires
        off + 4 <= buf@.len(),
    ensures
        r == spec_u32_at(buf@, off as int),
{
    let _n: usize = buf.len();
    u32_from_le_bytes(slice_subrange(buf, off, off + 4))
}

/// Reads the little-endian `u64` at `off`.
pub fn read_u64(buf: &[u8], off: usize) -> (r: u64)
    requires
        off + 8 <= buf@.len(),
    ensures
        r == spec_u64_at(buf@, off as int),
{
    let _n: usize = buf.len();
    u64_from_le_bytes(slice_subrange(buf, off, off + 8))
}

/// Reads the little-endian two's-complement `i64` at `off`.
pub fn read_i64(buf: &[u8], off: usize) -> (r: i64)
    requires
        off + 8 <= buf@.len(),
    ensures
        r == spec_i64_at(buf@, off as int),
{
    #[verifier::truncate]
    let r = read_u64(buf, off) as i64;
    r
}

/// Reads the atom header at `off`.
pub fn read_atom(buf: &[u8], off: usize) -> (r: LV2_Atom)
    requires
        off + 8 <= buf@.len(),
    ensures
        r == spec_atom_at(buf@, off as int),
{
    let _n: usize = buf.len();
    LV2_Atom { size: read_u32(buf, off), atom_type: read_u32(buf, off + 4) }
}

/// Reads the record header at `off`.
pub fn read_event(buf: &[u8], off: usize) -> (r: LV2_Atom_Event)
    requires
        off + 16 <= buf@.len(),
    ensures
        r == spec_event_at(buf@, off as int),
{
    let _n: usize = buf.len();
    LV2_Atom_Event { time_frames: read_i64(buf, off), body: read_atom(buf, off + 8) }
}

/// Reads the sequence header at `off`.
pub fn read_sequence(buf: &[u8], off: usize) -> (r: LV2_Atom_Sequence)
    requires
        off + 16 <= buf@.len(),
    ensures
        r == spec_sequence_at(buf@, off as int),
{
    let _n: usize = buf.len();
    LV2_Atom_Sequence {
        atom: read_atom(buf, off),
        body: LV2_Atom_Sequence_Body {
            unit: read_u32(buf, off + 8),
            pad: read_u32(buf, off + 12),
        },
    }
}

/// Reads the property header at `off`.
pub fn read_property(buf: &[u8], off: usize) -> (r: LV2_Atom_Property_Body)
    requires
        off + 16 <= buf@.len(),
    ensures
        r == spec_property_at(buf@, off as int),
{
    let _n: usize = buf.len();
    LV2_Atom_Property_Body {
        key: read_u32(buf, off),
        context: read_u32(buf, off + 4),
        value: read_atom(buf, off + 8),
    }
}

/// Reads the object body header at `off`.
pub fn read_object(buf: &[u8], off: usize) -> (r: LV2_Atom_Object_Body)
    requires
        off + 8 <= buf@.len(),
    ensures
        r == spec_object_at(buf@, off as int),
{
    let _n: usize = buf.len();
    LV2_Atom_Object_Body { id: read_u32(buf, off), otype: read_u32(buf, off + 4) }
}

} // verus!
