//! Classification and schema-driven decoding of queue entries, and the
//! decode session that ties them together.
//!
//! An entry whose first byte is the reserved marker `0xFF` announces a
//! schema by its 8-byte fingerprint; any other leading byte starts a data
//! record. A record's bytes are interpreted recursively against the active
//! schema, following the record serializer's wire format: single bytes for
//! `Bool`, `U8` and `I8`, LEB128 varints for the wider unsigned kinds and
//! for every length, count and enum discriminant, zigzag varints for the
//! signed kinds, fixed little-endian bytes for the float kinds, a
//! varint-length UTF-8 scalar for `Char`, a presence byte plus payload for
//! options, the variant selected in declared order for enums, and
//! sequential field reads for structs and tuples.
//!
//! The session keeps one mutable active-schema slot, initially empty or
//! pre-seeded with a schema supplied out of band. Announcements resolve
//! against the supplied schema's fingerprint (a mismatch is fatal) or
//! against the cache (absence is fatal); data records decode against the
//! active schema, and one before any schema is established is fatal, as is
//! an empty entry.

use vstd::prelude::*;

use crate::cache::Cache;
use crate::error::Error;
use crate::fingerprint::{fingerprint, fingerprint_of_bytes, spec_fingerprint};
use crate::flash_log::{parse_queue_entries, spec_entries, view_byte_lists};
use crate::schema::{
    view_node, view_value, DataShape, DataValue, DataValueModel, FieldValue, NamedField,
    SchemaModel, SchemaNode, ShapeModel, TypedValue, ValueModel,
};
use crate::utf8::{is_cont, is_utf8, validate_utf8};

verus! {

broadcast use {vstd::std_specs::vec::group_vec_axioms, vstd::seq::group_seq_axioms};

/// One classified queue entry.
#[derive(Debug)]
pub enum LogEntry<'a> {
    /// The reserved marker byte followed by an 8-byte fingerprint.
    SchemaAnnouncement(u64),
    /// A schema-encoded data record, handed on unchanged.
    DataRecord(&'a [u8]),
}

/// The reserved leading byte of a schema announcement.
pub const ID_SCHEMA: u8 = 0xFF;

/// Classifies an entry by its first byte: the reserved marker value opens
/// an announcement carrying exactly 8 fingerprint bytes; any other leading
/// byte starts a data record. An empty entry is a protocol violation.
pub fn classify<'a>(entry: &'a [u8]) -> (r: Result<LogEntry<'a>, Error>)
    ensures
        entry@.len() == 0 ==> r == Err::<LogEntry<'a>, Error>(Error::EmptyEntry),
        entry@.len() > 0 && entry@[0] == ID_SCHEMA && entry@.len() == 9 ==> (r matches Ok(
            LogEntry::SchemaAnnouncement(fp),
        ) && fp == fingerprint_of_bytes(entry@.subrange(1, 9))),
        entry@.len() > 0 && entry@[0] == ID_SCHEMA && entry@.len() != 9 ==> r == Err::<
            LogEntry<'a>,
            Error,
        >(Error::MalformedAnnouncement),
        entry@.len() > 0 && entry@[0] != ID_SCHEMA ==> (r matches Ok(LogEntry::DataRecord(b))
            && b@ == entry@),
{
    if entry.len() == 0 {
        return Err(Error::EmptyEntry);
    }
    if entry[0] == ID_SCHEMA {
        if entry.len() != 9 {
            return Err(Error::MalformedAnnouncement);
        }
        let fp = (entry[1] as u64) + (entry[2] as u64) * 0x100 + (entry[3] as u64) * 0x1_0000 + (
        entry[4] as u64) * 0x100_0000 + (entry[5] as u64) * 0x1_0000_0000 + (entry[6] as u64)
            * 0x100_0000_0000 + (entry[7] as u64) * 0x1_0000_0000_0000 + (entry[8] as u64)
            * 0x100_0000_0000_0000;
        proof {
            assert(entry@.subrange(1, 9)[0] == entry@[1]);
        }
        Ok(LogEntry::SchemaAnnouncement(fp))
    } else {
        Ok(LogEntry::DataRecord(entry))
    }
}

/// Reading one byte at `pos`, if it is in range.
pub open spec fn read_u8(s: Seq<u8>, pos: int) -> Option<u8> {
    if 0 <= pos && pos + 1 <= s.len() {
        Option::Some(s[pos])
    } else {
        Option::None
    }
}

/// Reading a fixed-width little-endian u32 at `pos` (the float wire form).
pub open spec fn read_u32(s: Seq<u8>, pos: int) -> Option<u32> {
    if 0 <= pos && pos + 4 <= s.len() {
        Option::Some(
            (s[pos] + s[pos + 1] * 0x100 + s[pos + 2] * 0x1_0000 + s[pos + 3] * 0x100_0000) as u32,
        )
    } else {
        Option::None
    }
}

/// Reading a fixed-width little-endian u64 at `pos` (the double wire form).
pub open spec fn read_u64(s: Seq<u8>, pos: int) -> Option<u64> {
    if 0 <= pos && pos + 8 <= s.len() {
        Option::Some(
            (s[pos] + s[pos + 1] * 0x100 + s[pos + 2] * 0x1_0000 + s[pos + 3] * 0x100_0000 + s[pos
                + 4] * 0x1_0000_0000 + s[pos + 5] * 0x100_0000_0000 + s[pos + 6]
                * 0x1_0000_0000_0000 + s[pos + 7] * 0x100_0000_0000_0000) as u64,
        )
    } else {
        Option::None
    }
}

/// The 128-power weight of the `i`-th byte of a u16 varint.
pub open spec fn varint_weight_u16(i: nat) -> int {
    if i == 0 { 0x1 } else if i == 1 { 0x80 } else { 0x4000 }
}

/// One step of the u16 varint read: at most 3 encoded bytes, the last
/// restricted to the type's remaining bits. Each byte contributes its low
/// 7 bits at the next 128-power weight; a byte with the high bit clear
/// terminates.
pub open spec fn spec_varint_u16_rec(s: Seq<u8>, pos: int, i: nat, out: u16) -> Option<(u16, int)>
    decreases 3 - i,
{
    if i >= 3 {
        Option::None
    } else if !(0 <= pos < s.len()) {
        Option::None
    } else {
        let val = s[pos];
        let carry = val % 0x80;
        let out2 = ((out as int) + (carry as int) * varint_weight_u16(i)) as u16;
        if val < 0x80 {
            if i == 2 && val > 3 {
                Option::None
            } else {
                Option::Some((out2, pos + 1))
            }
        } else {
            spec_varint_u16_rec(s, pos + 1, i + 1, out2)
        }
    }
}

/// Reading a LEB128 varint u16 at `pos`.
pub open spec fn read_varint_u16(s: Seq<u8>, pos: int) -> Option<(u16, int)> {
    spec_varint_u16_rec(s, pos, 0, 0)
}

/// The 128-power weight of the `i`-th byte of a u32 varint.
pub open spec fn varint_weight_u32(i: nat) -> int {
    if i == 0 { 0x1 } else if i == 1 { 0x80 } else if i == 2 { 0x4000 } else if i == 3 { 0x200000 } else { 0x10000000 }
}

/// One step of the u32 varint read: at most 5 encoded bytes, the last
/// restricted to the type's remaining bits. Each byte contributes its low
/// 7 bits at the next 128-power weight; a byte with the high bit clear
/// terminates.
pub open spec fn spec_varint_u32_rec(s: Seq<u8>, pos: int, i: nat, out: u32) -> Option<(u32, int)>
    decreases 5 - i,
{
    if i >= 5 {
        Option::None
    } else if !(0 <= pos < s.len()) {
        Option::None
    } else {
        let val = s[pos];
        let carry = val % 0x80;
        let out2 = ((out as int) + (carry as int) * varint_weight_u32(i)) as u32;
        if val < 0x80 {
            if i == 4 && val > 15 {
                Option::None
            } else {
                Option::Some((out2, pos + 1))
            }
        } else {
            spec_varint_u32_rec(s, pos + 1, i + 1, out2)
        }
    }
}

/// Reading a LEB128 varint u32 at `pos`.
pub open spec fn read_varint_u32(s: Seq<u8>, pos: int) -> Option<(u32, int)> {
    spec_varint_u32_rec(s, pos, 0, 0)
}

/// The 128-power weight of the `i`-th byte of a u64 varint.
pub open spec fn varint_weight_u64(i: nat) -> int {
    if i == 0 { 0x1 } else if i == 1 { 0x80 } else if i == 2 { 0x4000 } else if i == 3 { 0x200000 } else if i == 4 { 0x10000000 } else if i == 5 { 0x800000000 } else if i == 6 { 0x40000000000 } else if i == 7 { 0x2000000000000 } else if i == 8 { 0x100000000000000 } else { 0x8000000000000000 }
}

/// One step of the u64 varint read: at most 10 encoded bytes, the last
/// restricted to the type's remaining bits. Each byte contributes its low
/// 7 bits at the next 128-power weight; a byte with the high bit clear
/// terminates.
pub open spec fn spec_varint_u64_rec(s: Seq<u8>, pos: int, i: nat, out: u64) -> Option<(u64, int)>
    decreases 10 - i,
{
    if i >= 10 {
        Option::None
    } else if !(0 <= pos < s.len()) {
        Option::None
    } else {
        let val = s[pos];
        let carry = val % 0x80;
        let out2 = ((out as int) + (carry as int) * varint_weight_u64(i)) as u64;
        if val < 0x80 {
            if i == 9 && val > 1 {
                Option::None
            } else {
                Option::Some((out2, pos + 1))
            }
        } else {
            spec_varint_u64_rec(s, pos + 1, i + 1, out2)
        }
    }
}

/// Reading a LEB128 varint u64 at `pos`.
pub open spec fn read_varint_u64(s: Seq<u8>, pos: int) -> Option<(u64, int)> {
    spec_varint_u64_rec(s, pos, 0, 0)
}

/// The 128-power weight of the `i`-th byte of a u128 varint.
pub open spec fn varint_weight_u128(i: nat) -> int {
    if i == 0 { 0x1 } else if i == 1 { 0x80 } else if i == 2 { 0x4000 } else if i == 3 { 0x200000 } else if i == 4 { 0x10000000 } else if i == 5 { 0x800000000 } else if i == 6 { 0x40000000000 } else if i == 7 { 0x2000000000000 } else if i == 8 { 0x100000000000000 } else if i == 9 { 0x8000000000000000 } else if i == 10 { 0x400000000000000000 } else if i == 11 { 0x20000000000000000000 } else if i == 12 { 0x1000000000000000000000 } else if i == 13 { 0x80000000000000000000000 } else if i == 14 { 0x4000000000000000000000000 } else if i == 15 { 0x200000000000000000000000000 } else if i == 16 { 0x10000000000000000000000000000 } else if i == 17 { 0x800000000000000000000000000000 } else { 0x40000000000000000000000000000000 }
}

/// One step of the u128 varint read: at most 19 encoded bytes, the last
/// restricted to the type's remaining bits. Each byte contributes its low
/// 7 bits at the next 128-power weight; a byte with the high bit clear
/// terminates.
pub open spec fn spec_varint_u128_rec(s: Seq<u8>, pos: int, i: nat, out: u128) -> Option<(u128, int)>
    decreases 19 - i,
{
    if i >= 19 {
        Option::None
    } else if !(0 <= pos < s.len()) {
        Option::None
    } else {
        let val = s[pos];
        let carry = val % 0x80;
        let out2 = ((out as int) + (carry as int) * varint_weight_u128(i)) as u128;
        if val < 0x80 {
            if i == 18 && val > 3 {
                Option::None
            } else {
                Option::Some((out2, pos + 1))
            }
        } else {
            spec_varint_u128_rec(s, pos + 1, i + 1, out2)
        }
    }
}

/// Reading a LEB128 varint u128 at `pos`.
pub open spec fn read_varint_u128(s: Seq<u8>, pos: int) -> Option<(u128, int)> {
    spec_varint_u128_rec(s, pos, 0, 0)
}

/// The zigzag decoding of a varint value: even values map to non-negative
/// integers, odd ones to negative.
pub open spec fn zigzag_i16(n: u16) -> i16 {
    if n % 2 == 0 {
        (n / 2) as i16
    } else {
        (-((n / 2) as int) - 1) as i16
    }
}

/// The zigzag decoding for 32 bits.
pub open spec fn zigzag_i32(n: u32) -> i32 {
    if n % 2 == 0 {
        (n / 2) as i32
    } else {
        (-((n / 2) as int) - 1) as i32
    }
}

/// The zigzag decoding for 64 bits.
pub open spec fn zigzag_i64(n: u64) -> i64 {
    if n % 2 == 0 {
        (n / 2) as i64
    } else {
        (-((n / 2) as int) - 1) as i64
    }
}

/// The zigzag decoding for 128 bits.
pub open spec fn zigzag_i128(n: u128) -> i128 {
    if n % 2 == 0 {
        (n / 2) as i128
    } else {
        (-((n / 2) as int) - 1) as i128
    }
}

/// The scalar value of the first character of a well-formed UTF-8 byte
/// string.
pub open spec fn utf8_first_scalar(s: Seq<u8>) -> u32 {
    let b0 = s[0] as int;
    if b0 < 0x80 {
        s[0] as u32
    } else if b0 < 0xE0 {
        ((b0 - 0xC0) * 0x40 + (s[1] - 0x80)) as u32
    } else if b0 < 0xF0 {
        ((b0 - 0xE0) * 0x1000 + (s[1] - 0x80) * 0x40 + (s[2] - 0x80)) as u32
    } else {
        ((b0 - 0xF0) * 0x40000 + (s[1] - 0x80) * 0x1000 + (s[2] - 0x80) * 0x40 + (s[3]
            - 0x80)) as u32
    }
}

/// Decoding one value of the given kind at `pos`, following the record
/// serialization format: single bytes for `Bool`/`U8`/`I8` and the option
/// presence byte, LEB128 varints for the wider unsigned kinds, lengths,
/// counts and enum discriminants, zigzag varints for the signed kinds,
/// fixed little-endian bytes for the float kinds, and a varint-length
/// UTF-8 scalar for `Char`. On success, the value and the position just
/// past its bytes.
pub open spec fn spec_decode_value(m: SchemaModel, s: Seq<u8>, pos: int) -> Result<
    (ValueModel, int),
    Error,
>
    decreases m, 1nat, 0nat,
{
    match m {
        SchemaModel::Bool => match read_u8(s, pos) {
            Option::Some(b) => if b == 0 {
                Ok((ValueModel::Bool(false), pos + 1))
            } else if b == 1 {
                Ok((ValueModel::Bool(true), pos + 1))
            } else {
                Err(Error::DecodeMismatch)
            },
            Option::None => Err(Error::DecodeMismatch),
        },
        SchemaModel::I8 => match read_u8(s, pos) {
            Option::Some(b) => Ok((ValueModel::I8(b as i8), pos + 1)),
            Option::None => Err(Error::DecodeMismatch),
        },
        SchemaModel::U8 => match read_u8(s, pos) {
            Option::Some(b) => Ok((ValueModel::U8(b), pos + 1)),
            Option::None => Err(Error::DecodeMismatch),
        },
        SchemaModel::I16 => match read_varint_u16(s, pos) {
            Option::Some((v, p)) => Ok((ValueModel::I16(zigzag_i16(v)), p)),
            Option::None => Err(Error::DecodeMismatch),
        },
        SchemaModel::U16 => match read_varint_u16(s, pos) {
            Option::Some((v, p)) => Ok((ValueModel::U16(v), p)),
            Option::None => Err(Error::DecodeMismatch),
        },
        SchemaModel::I32 => match read_varint_u32(s, pos) {
            Option::Some((v, p)) => Ok((ValueModel::I32(zigzag_i32(v)), p)),
            Option::None => Err(Error::DecodeMismatch),
        },
        SchemaModel::U32 => match read_varint_u32(s, pos) {
            Option::Some((v, p)) => Ok((ValueModel::U32(v), p)),
            Option::None => Err(Error::DecodeMismatch),
        },
        SchemaModel::I64 => match read_varint_u64(s, pos) {
            Option::Some((v, p)) => Ok((ValueModel::I64(zigzag_i64(v)), p)),
            Option::None => Err(Error::DecodeMismatch),
        },
        SchemaModel::U64 => match read_varint_u64(s, pos) {
            Option::Some((v, p)) => Ok((ValueModel::U64(v), p)),
            Option::None => Err(Error::DecodeMismatch),
        },
        SchemaModel::I128 => match read_varint_u128(s, pos) {
            Option::Some((v, p)) => Ok((ValueModel::I128(zigzag_i128(v)), p)),
            Option::None => Err(Error::DecodeMismatch),
        },
        SchemaModel::U128 => match read_varint_u128(s, pos) {
            Option::Some((v, p)) => Ok((ValueModel::U128(v), p)),
            Option::None => Err(Error::DecodeMismatch),
        },
        SchemaModel::Usize => match read_varint_u64(s, pos) {
            Option::Some((v, p)) => Ok((ValueModel::Usize(v), p)),
            Option::None => Err(Error::DecodeMismatch),
        },
        SchemaModel::Isize => match read_varint_u64(s, pos) {
            Option::Some((v, p)) => Ok((ValueModel::Isize(zigzag_i64(v)), p)),
            Option::None => Err(Error::DecodeMismatch),
        },
        SchemaModel::F32 => match read_u32(s, pos) {
            Option::Some(v) => Ok((ValueModel::F32Bits(v), pos + 4)),
            Option::None => Err(Error::DecodeMismatch),
        },
        SchemaModel::F64 => match read_u64(s, pos) {
            Option::Some(v) => Ok((ValueModel::F64Bits(v), pos + 8)),
            Option::None => Err(Error::DecodeMismatch),
        },
        SchemaModel::Char => match read_varint_u64(s, pos) {
            Option::Some((sz, p1)) => if sz > 4 {
                Err(Error::DecodeMismatch)
            } else if sz >= 1 && p1 + sz <= s.len() {
                let bytes = s.subrange(p1, p1 + sz);
                if is_utf8(bytes) {
                    Ok((ValueModel::Char(utf8_first_scalar(bytes)), p1 + sz))
                } else {
                    Err(Error::DecodeMismatch)
                }
            } else {
                Err(Error::DecodeMismatch)
            },
            Option::None => Err(Error::DecodeMismatch),
        },
        SchemaModel::Utf8String => match read_varint_u64(s, pos) {
            Option::Some((sz, p1)) => if p1 + sz <= s.len() {
                let bytes = s.subrange(p1, p1 + sz);
                if is_utf8(bytes) {
                    Ok((ValueModel::Text(bytes), p1 + sz))
                } else {
                    Err(Error::DecodeMismatch)
                }
            } else {
                Err(Error::DecodeMismatch)
            },
            Option::None => Err(Error::DecodeMismatch),
        },
        SchemaModel::ByteArray => match read_varint_u64(s, pos) {
            Option::Some((sz, p1)) => if p1 + sz <= s.len() {
                Ok((ValueModel::Bytes(s.subrange(p1, p1 + sz)), p1 + sz))
            } else {
                Err(Error::DecodeMismatch)
            },
            Option::None => Err(Error::DecodeMismatch),
        },
        SchemaModel::Unit => Ok((ValueModel::Unit, pos)),
        SchemaModel::SchemaMarker => Ok((ValueModel::SchemaMarker, pos)),
        SchemaModel::Maybe(inner) => match read_u8(s, pos) {
            Option::Some(b) => if b == 0 {
                Ok((ValueModel::Maybe(Option::None), pos + 1))
            } else if b == 1 {
                match spec_decode_value(*inner, s, pos + 1) {
                    Ok((v, p)) => Ok((ValueModel::Maybe(Option::Some(Box::new(v))), p)),
                    Err(e) => Err(e),
                }
            } else {
                Err(Error::DecodeMismatch)
            },
            Option::None => Err(Error::DecodeMismatch),
        },
        SchemaModel::Sequence(_) => match read_varint_u64(s, pos) {
            Option::Some((count, p1)) => match spec_decode_homogeneous(m, count as int, s, p1) {
                Ok((elems, p)) => Ok((ValueModel::Sequence(elems), p)),
                Err(e) => Err(e),
            },
            Option::None => Err(Error::DecodeMismatch),
        },
        SchemaModel::Tuple(elems) => match spec_decode_elements(elems, s, pos) {
            Ok((vals, p)) => Ok((ValueModel::Tuple(vals), p)),
            Err(e) => Err(e),
        },
        SchemaModel::Mapping { .. } => match read_varint_u64(s, pos) {
            Option::Some((count, p1)) => match spec_decode_pairs(m, count as int, s, p1) {
                Ok((pairs, p)) => Ok((ValueModel::Mapping(pairs), p)),
                Err(e) => Err(e),
            },
            Option::None => Err(Error::DecodeMismatch),
        },
        SchemaModel::Struct { name, data } => match spec_decode_shape_value(data, s, pos) {
            Ok((dv, p)) => Ok((ValueModel::Struct { name, data: dv }, p)),
            Err(e) => Err(e),
        },
        SchemaModel::Enum { name, variants } => match read_varint_u32(s, pos) {
            Option::Some((d, p1)) => if d < variants.len() {
                match spec_decode_shape_value(variants[d as int].data, s, p1) {
                    Ok((dv, p)) => Ok(
                        (
                            ValueModel::Enum {
                                name,
                                variant: variants[d as int].name,
                                data: dv,
                            },
                            p,
                        ),
                    ),
                    Err(e) => Err(e),
                }
            } else {
                Err(Error::DecodeMismatch)
            },
            Option::None => Err(Error::DecodeMismatch),
        },
    }
}

/// Decoding a struct or variant body of the given shape at `pos`.
pub open spec fn spec_decode_shape_value(d: ShapeModel, s: Seq<u8>, pos: int) -> Result<
    (DataValueModel, int),
    Error,
>
    decreases d, 1nat, 0nat,
{
    match d {
        ShapeModel::Unit => Ok((DataValueModel::Unit, pos)),
        ShapeModel::Newtype(inner) => match spec_decode_value(*inner, s, pos) {
            Ok((v, p)) => Ok((DataValueModel::Newtype(Box::new(v)), p)),
            Err(e) => Err(e),
        },
        ShapeModel::Tuple(elems) => match spec_decode_elements(elems, s, pos) {
            Ok((vals, p)) => Ok((DataValueModel::Tuple(vals), p)),
            Err(e) => Err(e),
        },
        ShapeModel::Struct(fields) => match spec_decode_field_values(fields, s, pos) {
            Ok((vals, p)) => Ok((DataValueModel::Struct(vals), p)),
            Err(e) => Err(e),
        },
    }
}

/// Decoding `count` elements of a sequence: the same inner kind read
/// `count` times in a row.
pub open spec fn spec_decode_homogeneous(m: SchemaModel, count: int, s: Seq<u8>, pos: int) -> Result<
    (Seq<ValueModel>, int),
    Error,
>
    decreases m, 0nat, count,
{
    match m {
        SchemaModel::Sequence(inner) => if count <= 0 {
            Ok((Seq::empty(), pos))
        } else {
            match spec_decode_value(*inner, s, pos) {
                Err(e) => Err(e),
                Ok((v, p)) => match spec_decode_homogeneous(m, count - 1, s, p) {
                    Err(e) => Err(e),
                    Ok((rest, end)) => Ok((seq![v] + rest, end)),
                },
            }
        },
        _ => Err(Error::DecodeMismatch),
    }
}

/// Decoding `count` key-value pairs of a map.
pub open spec fn spec_decode_pairs(m: SchemaModel, count: int, s: Seq<u8>, pos: int) -> Result<
    (Seq<(ValueModel, ValueModel)>, int),
    Error,
>
    decreases m, 0nat, count,
{
    match m {
        SchemaModel::Mapping { key, val } => if count <= 0 {
            Ok((Seq::empty(), pos))
        } else {
            match spec_decode_value(*key, s, pos) {
                Err(e) => Err(e),
                Ok((kv, p1)) => match spec_decode_value(*val, s, p1) {
                    Err(e) => Err(e),
                    Ok((vv, p2)) => match spec_decode_pairs(m, count - 1, s, p2) {
                        Err(e) => Err(e),
                        Ok((rest, end)) => Ok((seq![(kv, vv)] + rest, end)),
                    },
                },
            }
        },
        _ => Err(Error::DecodeMismatch),
    }
}

/// Decoding a heterogeneous element list (a tuple's kinds in order).
pub open spec fn spec_decode_elements(elems: Seq<SchemaModel>, s: Seq<u8>, pos: int) -> Result<
    (Seq<ValueModel>, int),
    Error,
>
    decreases elems, 0nat, 0nat,
{
    if elems.len() == 0 {
        Ok((Seq::empty(), pos))
    } else {
        match spec_decode_value(elems[0], s, pos) {
            Err(e) => Err(e),
            Ok((v, p)) => match spec_decode_elements(elems.subrange(1, elems.len() as int), s, p) {
                Err(e) => Err(e),
                Ok((rest, end)) => Ok((seq![v] + rest, end)),
            },
        }
    }
}

/// Decoding a named-field list in declared order.
pub open spec fn spec_decode_field_values(fields: Seq<crate::schema::FieldModel>, s: Seq<u8>, pos: int) -> Result<
    (Seq<crate::schema::FieldValueModel>, int),
    Error,
>
    decreases fields, 0nat, 0nat,
{
    if fields.len() == 0 {
        Ok((Seq::empty(), pos))
    } else {
        match spec_decode_value(fields[0].ty, s, pos) {
            Err(e) => Err(e),
            Ok((v, p)) => match spec_decode_field_values(
                fields.subrange(1, fields.len() as int),
                s,
                p,
            ) {
                Err(e) => Err(e),
                Ok((rest, end)) => Ok(
                    (
                        seq![
                            crate::schema::FieldValueModel { name: fields[0].name, value: v },
                        ] + rest,
                        end,
                    ),
                ),
            },
        }
    }
}

/// Decoding one whole record: the value must consume the entry exactly.
pub open spec fn spec_decode_record(m: SchemaModel, s: Seq<u8>) -> Result<ValueModel, Error> {
    match spec_decode_value(m, s, 0) {
        Err(e) => Err(e),
        Ok((v, p)) => if p == s.len() {
            Ok(v)
        } else {
            Err(Error::DecodeMismatch)
        },
    }
}

/// A value-and-position result abstracted to its mathematical value.
pub open spec fn value_step_model(r: Result<(TypedValue, usize), Error>) -> Result<
    (ValueModel, int),
    Error,
> {
    match r {
        Ok((v, p)) => Ok((view_value(v), p as int)),
        Err(e) => Err(e),
    }
}

/// A shape result abstracted to its mathematical value.
pub open spec fn shape_step_model(r: Result<(DataValue, usize), Error>) -> Result<
    (DataValueModel, int),
    Error,
> {
    match r {
        Ok((v, p)) => Ok((crate::schema::view_data_value(v), p as int)),
        Err(e) => Err(e),
    }
}

/// A value-list result abstracted to its mathematical value.
pub open spec fn values_step_model(r: Result<(Vec<TypedValue>, usize), Error>) -> Result<
    (Seq<ValueModel>, int),
    Error,
> {
    match r {
        Ok((v, p)) => Ok((crate::schema::view_values(v@), p as int)),
        Err(e) => Err(e),
    }
}

/// A pair-list result abstracted to its mathematical value.
pub open spec fn pairs_step_model(r: Result<(Vec<(TypedValue, TypedValue)>, usize), Error>) -> Result<
    (Seq<(ValueModel, ValueModel)>, int),
    Error,
> {
    match r {
        Ok((v, p)) => Ok((crate::schema::view_pairs(v@), p as int)),
        Err(e) => Err(e),
    }
}

/// A field-list result abstracted to its mathematical value.
pub open spec fn field_values_step_model(r: Result<(Vec<FieldValue>, usize), Error>) -> Result<
    (Seq<crate::schema::FieldValueModel>, int),
    Error,
> {
    match r {
        Ok((v, p)) => Ok((crate::schema::view_field_values(v@), p as int)),
        Err(e) => Err(e),
    }
}

/// A record result abstracted to its mathematical value.
pub open spec fn record_result_model(r: Result<TypedValue, Error>) -> Result<ValueModel, Error> {
    match r {
        Ok(v) => Ok(view_value(v)),
        Err(e) => Err(e),
    }
}

/// Copies a byte vector.
fn copy_bytes(v: &Vec<u8>) -> (r: Vec<u8>)
    ensures
        r@ == v@,
{
    let mut out: Vec<u8> = Vec::new();
    let n = v.len();
    let mut i: usize = 0;
    while i < n
        invariant
            i <= n,
            n == v@.len(),
            out@ =~= v@.subrange(0, i as int),
        decreases n - i,
    {
        out.push(v[i]);
        proof {
            assert(out@ =~= v@.subrange(0, i + 1));
        }
        i += 1;
    }
    proof {
        assert(out@ =~= v@);
    }
    out
}

fn take_u8(s: &[u8], pos: usize) -> (r: Option<u8>)
    ensures
        r == read_u8(s@, pos as int),
        r is Some ==> pos + 1 <= s@.len() <= usize::MAX,
{
    if pos < s.len() {
        Option::Some(s[pos])
    } else {
        Option::None
    }
}

pub fn take_u32(s: &[u8], pos: usize) -> (r: Option<u32>)
    ensures
        r == read_u32(s@, pos as int),
        r is Some ==> pos + 4 <= s@.len() <= usize::MAX,
{
    if s.len() >= 4 && pos <= s.len() - 4 {
        Option::Some(
            (s[pos] as u32) + (s[pos + 1] as u32) * 0x100 + (s[pos + 2] as u32) * 0x1_0000 + (s[pos
                + 3] as u32) * 0x100_0000,
        )
    } else {
        Option::None
    }
}

fn take_u64(s: &[u8], pos: usize) -> (r: Option<u64>)
    ensures
        r == read_u64(s@, pos as int),
        r is Some ==> pos + 8 <= s@.len() <= usize::MAX,
{
    if s.len() >= 8 && pos <= s.len() - 8 {
        Option::Some(
            (s[pos] as u64) + (s[pos + 1] as u64) * 0x100 + (s[pos + 2] as u64) * 0x1_0000 + (s[pos
                + 3] as u64) * 0x100_0000 + (s[pos + 4] as u64) * 0x1_0000_0000 + (s[pos + 5]
                as u64) * 0x100_0000_0000 + (s[pos + 6] as u64) * 0x1_0000_0000_0000 + (s[pos + 7]
                as u64) * 0x100_0000_0000_0000,
        )
    } else {
        Option::None
    }
}

fn take_varint_u16(s: &[u8], pos: usize) -> (r: Option<(u16, usize)>)
    ensures
        (match r {
            Option::Some((v, p)) => read_varint_u16(s@, pos as int) == Option::Some((v, p as int))
                && pos < p <= s@.len(),
            Option::None => read_varint_u16(s@, pos as int) is None,
        }),
{
    proof {
        reveal_with_fuel(spec_varint_u16_rec, 2);
    }
    let mut out: u16 = 0;
    if pos >= s.len() {
        return Option::None;
    }
    let v = s[pos];
    if v < 0x80 {
        let done: u16 = out + (v as u16) * 0x1;
        assert(spec_varint_u16_rec(s@, pos as int, 0, out) == Option::Some((done, pos + 1)));
        return Option::Some((done, pos + 1));
    }
    let next: u16 = out + ((v % 0x80) as u16) * 0x1;
    assert(spec_varint_u16_rec(s@, pos as int, 0, out) == spec_varint_u16_rec(s@, pos + 1, 1, next));
    out = next;
    if s.len() - pos <= 1 {
        assert(spec_varint_u16_rec(s@, pos + 1, 1, out) is None);
        return Option::None;
    }
    let v = s[pos + 1];
    if v < 0x80 {
        let done: u16 = out + (v as u16) * 0x80;
        assert(spec_varint_u16_rec(s@, pos + 1, 1, out) == Option::Some((done, pos + 2)));
        return Option::Some((done, pos + 2));
    }
    let next: u16 = out + ((v % 0x80) as u16) * 0x80;
    assert(spec_varint_u16_rec(s@, pos + 1, 1, out) == spec_varint_u16_rec(s@, pos + 2, 2, next));
    out = next;
    if s.len() - pos <= 2 {
        assert(spec_varint_u16_rec(s@, pos + 2, 2, out) is None);
        return Option::None;
    }
    let v = s[pos + 2];
    if v < 0x80 {
        if v > 3 {
            return Option::None;
        }
        let done: u16 = out + (v as u16) * 0x4000;
        assert(spec_varint_u16_rec(s@, pos + 2, 2, out) == Option::Some((done, pos + 3)));
        return Option::Some((done, pos + 3));
    }
    return Option::None;
}

fn take_varint_u32(s: &[u8], pos: usize) -> (r: Option<(u32, usize)>)
    ensures
        (match r {
            Option::Some((v, p)) => read_varint_u32(s@, pos as int) == Option::Some((v, p as int))
                && pos < p <= s@.len(),
            Option::None => read_varint_u32(s@, pos as int) is None,
        }),
{
    proof {
        reveal_with_fuel(spec_varint_u32_rec, 2);
    }
    let mut out: u32 = 0;
    if pos >= s.len() {
        return Option::None;
    }
    let v = s[pos];
    if v < 0x80 {
        let done: u32 = out + (v as u32) * 0x1;
        assert(spec_varint_u32_rec(s@, pos as int, 0, out) == Option::Some((done, pos + 1)));
        return Option::Some((done, pos + 1));
    }
    let next: u32 = out + ((v % 0x80) as u32) * 0x1;
    assert(spec_varint_u32_rec(s@, pos as int, 0, out) == spec_varint_u32_rec(s@, pos + 1, 1, next));
    out = next;
    if s.len() - pos <= 1 {
        assert(spec_varint_u32_rec(s@, pos + 1, 1, out) is None);
        return Option::None;
    }
    let v = s[pos + 1];
    if v < 0x80 {
        let done: u32 = out + (v as u32) * 0x80;
        assert(spec_varint_u32_rec(s@, pos + 1, 1, out) == Option::Some((done, pos + 2)));
        return Option::Some((done, pos + 2));
    }
    let next: u32 = out + ((v % 0x80) as u32) * 0x80;
    assert(spec_varint_u32_rec(s@, pos + 1, 1, out) == spec_varint_u32_rec(s@, pos + 2, 2, next));
    out = next;
    if s.len() - pos <= 2 {
        assert(spec_varint_u32_rec(s@, pos + 2, 2, out) is None);
        return Option::None;
    }
    let v = s[pos + 2];
    if v < 0x80 {
        let done: u32 = out + (v as u32) * 0x4000;
        assert(spec_varint_u32_rec(s@, pos + 2, 2, out) == Option::Some((done, pos + 3)));
        return Option::Some((done, pos + 3));
    }
    let next: u32 = out + ((v % 0x80) as u32) * 0x4000;
    assert(spec_varint_u32_rec(s@, pos + 2, 2, out) == spec_varint_u32_rec(s@, pos + 3, 3, next));
    out = next;
    if s.len() - pos <= 3 {
        assert(spec_varint_u32_rec(s@, pos + 3, 3, out) is None);
        return Option::None;
    }
    let v = s[pos + 3];
    if v < 0x80 {
        let done: u32 = out + (v as u32) * 0x200000;
        assert(spec_varint_u32_rec(s@, pos + 3, 3, out) == Option::Some((done, pos + 4)));
        return Option::Some((done, pos + 4));
    }
    let next: u32 = out + ((v % 0x80) as u32) * 0x200000;
    assert(spec_varint_u32_rec(s@, pos + 3, 3, out) == spec_varint_u32_rec(s@, pos + 4, 4, next));
    out = next;
    if s.len() - pos <= 4 {
        assert(spec_varint_u32_rec(s@, pos + 4, 4, out) is None);
        return Option::None;
    }
    let v = s[pos + 4];
    if v < 0x80 {
        if v > 15 {
            return Option::None;
        }
        let done: u32 = out + (v as u32) * 0x10000000;
        assert(spec_varint_u32_rec(s@, pos + 4, 4, out) == Option::Some((done, pos + 5)));
        return Option::Some((done, pos + 5));
    }
    return Option::None;
}

fn take_varint_u64(s: &[u8], pos: usize) -> (r: Option<(u64, usize)>)
    ensures
        (match r {
            Option::Some((v, p)) => read_varint_u64(s@, pos as int) == Option::Some((v, p as int))
                && pos < p <= s@.len(),
            Option::None => read_varint_u64(s@, pos as int) is None,
        }),
{
    let mut out: u64 = 0;
    let mut i: usize = 0;
    loop
        invariant
            i <= 9,
            read_varint_u64(s@, pos as int) == spec_varint_u64_rec(s@, pos + i, i as nat, out),
            (out as int) < varint_weight_u64(i as nat),
        decreases 10 - i,
    {
        proof {
            reveal_with_fuel(spec_varint_u64_rec, 2);
        }
        if pos >= s.len() || s.len() - pos <= i {
            return Option::None;
        }
        let v = s[pos + i];
        let w: u64 = if i == 0 { 0x1 } else if i == 1 { 0x80 } else if i == 2 { 0x4000 } else if i == 3 { 0x200000 } else if i == 4 { 0x10000000 } else if i == 5 { 0x800000000 } else if i == 6 { 0x40000000000 } else if i == 7 { 0x2000000000000 } else if i == 8 { 0x100000000000000 } else { 0x8000000000000000 };
        assert(w as int == varint_weight_u64(i as nat));
        if v < 0x80 {
            if i == 9 && v > 1 {
                return Option::None;
            }
            proof {
                if i == 9 {
                    assert((v as int) * (w as int) <= 1 * (w as int)) by (nonlinear_arith)
                        requires
                            (v as int) <= 1,
                            0 <= (w as int),
                    ;
                } else {
                    assert((v as int) * (w as int) <= 127 * (w as int)) by (nonlinear_arith)
                        requires
                            (v as int) <= 127,
                            0 <= (w as int),
                    ;
                }
            }
            let done: u64 = out + (v as u64) * w;
            assert(spec_varint_u64_rec(s@, pos + i, i as nat, out) == Option::Some(
                (done, pos + i + 1),
            ));
            return Option::Some((done, pos + i + 1));
        }
        if i == 9 {
            return Option::None;
        }
        proof {
            assert(((v % 0x80) as int) * (w as int) <= 127 * (w as int)) by (nonlinear_arith)
                requires
                    0 <= (w as int),
            ;
        }
        let next: u64 = out + ((v % 0x80) as u64) * w;
        assert(spec_varint_u64_rec(s@, pos + i, i as nat, out) == spec_varint_u64_rec(
            s@,
            pos + i + 1,
            (i + 1) as nat,
            next,
        ));
        out = next;
        i += 1;
    }
}

fn take_varint_u128(s: &[u8], pos: usize) -> (r: Option<(u128, usize)>)
    ensures
        (match r {
            Option::Some((v, p)) => read_varint_u128(s@, pos as int) == Option::Some((v, p as int))
                && pos < p <= s@.len(),
            Option::None => read_varint_u128(s@, pos as int) is None,
        }),
{
    let mut out: u128 = 0;
    let mut i: usize = 0;
    loop
        invariant
            i <= 18,
            read_varint_u128(s@, pos as int) == spec_varint_u128_rec(s@, pos + i, i as nat, out),
            (out as int) < varint_weight_u128(i as nat),
        decreases 19 - i,
    {
        proof {
            reveal_with_fuel(spec_varint_u128_rec, 2);
        }
        if pos >= s.len() || s.len() - pos <= i {
            return Option::None;
        }
        let v = s[pos + i];
        let w: u128 = if i == 0 { 0x1 } else if i == 1 { 0x80 } else if i == 2 { 0x4000 } else if i == 3 { 0x200000 } else if i == 4 { 0x10000000 } else if i == 5 { 0x800000000 } else if i == 6 { 0x40000000000 } else if i == 7 { 0x2000000000000 } else if i == 8 { 0x100000000000000 } else if i == 9 { 0x8000000000000000 } else if i == 10 { 0x400000000000000000 } else if i == 11 { 0x20000000000000000000 } else if i == 12 { 0x1000000000000000000000 } else if i == 13 { 0x80000000000000000000000 } else if i == 14 { 0x4000000000000000000000000 } else if i == 15 { 0x200000000000000000000000000 } else if i == 16 { 0x10000000000000000000000000000 } else if i == 17 { 0x800000000000000000000000000000 } else { 0x40000000000000000000000000000000 };
        assert(w as int == varint_weight_u128(i as nat));
        if v < 0x80 {
            if i == 18 && v > 3 {
                return Option::None;
            }
            proof {
                if i == 18 {
                    assert((v as int) * (w as int) <= 3 * (w as int)) by (nonlinear_arith)
                        requires
                            (v as int) <= 3,
                            0 <= (w as int),
                    ;
                } else {
                    assert((v as int) * (w as int) <= 127 * (w as int)) by (nonlinear_arith)
                        requires
                            (v as int) <= 127,
                            0 <= (w as int),
                    ;
                }
            }
            let done: u128 = out + (v as u128) * w;
            assert(spec_varint_u128_rec(s@, pos + i, i as nat, out) == Option::Some(
                (done, pos + i + 1),
            ));
            return Option::Some((done, pos + i + 1));
        }
        if i == 18 {
            return Option::None;
        }
        proof {
            assert(((v % 0x80) as int) * (w as int) <= 127 * (w as int)) by (nonlinear_arith)
                requires
                    0 <= (w as int),
            ;
        }
        let next: u128 = out + ((v % 0x80) as u128) * w;
        assert(spec_varint_u128_rec(s@, pos + i, i as nat, out) == spec_varint_u128_rec(
            s@,
            pos + i + 1,
            (i + 1) as nat,
            next,
        ));
        out = next;
        i += 1;
    }
}

/// Copies `len` bytes of `s` starting at `base` into a fresh vector.
fn copy_range(s: &[u8], base: usize, len: usize) -> (r: Vec<u8>)
    requires
        base + len <= s@.len(),
    ensures
        r@ == s@.subrange(base as int, base + len),
{
    let mut out: Vec<u8> = Vec::new();
    let total = s.len();
    let mut k: usize = 0;
    while k < len
        invariant
            k <= len,
            base + len <= total,
            total == s@.len(),
            out@ =~= s@.subrange(base as int, base + k),
        decreases len - k,
    {
        out.push(s[base + k]);
        proof {
            assert(out@ =~= s@.subrange(base as int, base + k + 1));
        }
        k += 1;
    }
    out
}

/// Decodes one value of the given kind at `pos`.
#[verifier::rlimit(100)]
pub fn decode_value_at(schema: &SchemaNode, s: &[u8], pos: usize) -> (r: Result<
    (TypedValue, usize),
    Error,
>)
    ensures
        value_step_model(r) == spec_decode_value(view_node(*schema), s@, pos as int),
    decreases schema, 1nat, 0nat,
{
    match schema {
        SchemaNode::Bool => match take_u8(s, pos) {
            Option::Some(b) => if b == 0 {
                Ok((TypedValue::Bool(false), pos + 1))
            } else if b == 1 {
                Ok((TypedValue::Bool(true), pos + 1))
            } else {
                Err(Error::DecodeMismatch)
            },
            Option::None => Err(Error::DecodeMismatch),
        },
        SchemaNode::I8 => match take_u8(s, pos) {
            Option::Some(b) => Ok((TypedValue::I8(#[verifier::truncate] (b as i8)), pos + 1)),
            Option::None => Err(Error::DecodeMismatch),
        },
        SchemaNode::U8 => match take_u8(s, pos) {
            Option::Some(b) => Ok((TypedValue::U8(b), pos + 1)),
            Option::None => Err(Error::DecodeMismatch),
        },
        SchemaNode::I16 => match take_varint_u16(s, pos) {
            Option::Some((v, p)) => {
                let z: i16 = if v % 2 == 0 {
                    (v / 2) as i16
                } else {
                    -((v / 2) as i16) - 1
                };
                Ok((TypedValue::I16(z), p))
            },
            Option::None => Err(Error::DecodeMismatch),
        },
        SchemaNode::U16 => match take_varint_u16(s, pos) {
            Option::Some((v, p)) => Ok((TypedValue::U16(v), p)),
            Option::None => Err(Error::DecodeMismatch),
        },
        SchemaNode::I32 => match take_varint_u32(s, pos) {
            Option::Some((v, p)) => {
                let z: i32 = if v % 2 == 0 {
                    (v / 2) as i32
                } else {
                    -((v / 2) as i32) - 1
                };
                Ok((TypedValue::I32(z), p))
            },
            Option::None => Err(Error::DecodeMismatch),
        },
        SchemaNode::U32 => match take_varint_u32(s, pos) {
            Option::Some((v, p)) => Ok((TypedValue::U32(v), p)),
            Option::None => Err(Error::DecodeMismatch),
        },
        SchemaNode::I64 => match take_varint_u64(s, pos) {
            Option::Some((v, p)) => {
                let z: i64 = if v % 2 == 0 {
                    (v / 2) as i64
                } else {
                    -((v / 2) as i64) - 1
                };
                Ok((TypedValue::I64(z), p))
            },
            Option::None => Err(Error::DecodeMismatch),
        },
        SchemaNode::U64 => match take_varint_u64(s, pos) {
            Option::Some((v, p)) => Ok((TypedValue::U64(v), p)),
            Option::None => Err(Error::DecodeMismatch),
        },
        SchemaNode::I128 => match take_varint_u128(s, pos) {
            Option::Some((v, p)) => {
                let z: i128 = if v % 2 == 0 {
                    (v / 2) as i128
                } else {
                    -((v / 2) as i128) - 1
                };
                Ok((TypedValue::I128(z), p))
            },
            Option::None => Err(Error::DecodeMismatch),
        },
        SchemaNode::U128 => match take_varint_u128(s, pos) {
            Option::Some((v, p)) => Ok((TypedValue::U128(v), p)),
            Option::None => Err(Error::DecodeMismatch),
        },
        SchemaNode::Usize => match take_varint_u64(s, pos) {
            Option::Some((v, p)) => Ok((TypedValue::Usize(v), p)),
            Option::None => Err(Error::DecodeMismatch),
        },
        SchemaNode::Isize => match take_varint_u64(s, pos) {
            Option::Some((v, p)) => {
                let z: i64 = if v % 2 == 0 {
                    (v / 2) as i64
                } else {
                    -((v / 2) as i64) - 1
                };
                Ok((TypedValue::Isize(z), p))
            },
            Option::None => Err(Error::DecodeMismatch),
        },
        SchemaNode::F32 => match take_u32(s, pos) {
            Option::Some(v) => Ok((TypedValue::F32Bits(v), pos + 4)),
            Option::None => Err(Error::DecodeMismatch),
        },
        SchemaNode::F64 => match take_u64(s, pos) {
            Option::Some(v) => Ok((TypedValue::F64Bits(v), pos + 8)),
            Option::None => Err(Error::DecodeMismatch),
        },
        SchemaNode::Char => match take_varint_u64(s, pos) {
            Option::Some((sz, p1)) => {
                if sz > 4 {
                    return Err(Error::DecodeMismatch);
                }
                if sz < 1 || (sz as usize) > s.len() - p1 {
                    return Err(Error::DecodeMismatch);
                }
                let bytes = copy_range(s, p1, sz as usize);
                if !validate_utf8(bytes.as_slice()) {
                    return Err(Error::DecodeMismatch);
                }
                let ghost bs = s@.subrange(p1 as int, p1 + sz);
                let b0 = bytes[0];
                let c: u32;
                if b0 < 0x80 {
                    c = b0 as u32;
                } else if b0 < 0xE0 {
                    assert(bs.len() >= 2 && 0xC2 <= bs[0] && is_cont(bs[1]));
                    c = ((b0 - 0xC0) as u32) * 0x40 + ((bytes[1] - 0x80) as u32);
                } else if b0 < 0xF0 {
                    assert(bs.len() >= 3 && 0x80 <= bs[1] && is_cont(bs[2]));
                    c = ((b0 - 0xE0) as u32) * 0x1000 + ((bytes[1] - 0x80) as u32) * 0x40 + ((
                    bytes[2] - 0x80) as u32);
                } else {
                    assert(bs.len() >= 4 && bs[0] <= 0xF4 && 0x80 <= bs[1] && is_cont(bs[2])
                        && is_cont(bs[3]));
                    c = ((b0 - 0xF0) as u32) * 0x40000 + ((bytes[1] - 0x80) as u32) * 0x1000 + ((
                    bytes[2] - 0x80) as u32) * 0x40 + ((bytes[3] - 0x80) as u32);
                }
                assert(c == utf8_first_scalar(bs));
                Ok((TypedValue::Char(c), p1 + sz as usize))
            },
            Option::None => Err(Error::DecodeMismatch),
        },
        SchemaNode::Utf8String => match take_varint_u64(s, pos) {
            Option::Some((sz, p1)) => {
                if (sz as u128) > (s.len() - p1) as u128 {
                    return Err(Error::DecodeMismatch);
                }
                let bytes = copy_range(s, p1, sz as usize);
                if validate_utf8(bytes.as_slice()) {
                    Ok((TypedValue::Text(bytes), p1 + sz as usize))
                } else {
                    Err(Error::DecodeMismatch)
                }
            },
            Option::None => Err(Error::DecodeMismatch),
        },
        SchemaNode::ByteArray => match take_varint_u64(s, pos) {
            Option::Some((sz, p1)) => {
                if (sz as u128) > (s.len() - p1) as u128 {
                    return Err(Error::DecodeMismatch);
                }
                let bytes = copy_range(s, p1, sz as usize);
                Ok((TypedValue::Bytes(bytes), p1 + sz as usize))
            },
            Option::None => Err(Error::DecodeMismatch),
        },
        SchemaNode::Unit => Ok((TypedValue::Unit, pos)),
        SchemaNode::SchemaMarker => Ok((TypedValue::SchemaMarker, pos)),
        SchemaNode::Maybe(inner) => match take_u8(s, pos) {
            Option::Some(b) => if b == 0 {
                Ok((TypedValue::Maybe(Option::None), pos + 1))
            } else if b == 1 {
                match decode_value_at(inner, s, pos + 1) {
                    Ok((v, p)) => Ok((TypedValue::Maybe(Option::Some(Box::new(v))), p)),
                    Err(e) => Err(e),
                }
            } else {
                Err(Error::DecodeMismatch)
            },
            Option::None => Err(Error::DecodeMismatch),
        },
        SchemaNode::Sequence(_) => match take_varint_u64(s, pos) {
            Option::Some((count, p1)) => match decode_homogeneous(schema, count, s, p1) {
                Ok((elems, p)) => Ok((TypedValue::Sequence(elems), p)),
                Err(e) => Err(e),
            },
            Option::None => Err(Error::DecodeMismatch),
        },
        SchemaNode::Tuple(elems) => {
            proof {
                crate::schema::lemma_view_nodes_props(elems@);
                assert(crate::schema::view_nodes(elems@).skip(0) =~= crate::schema::view_nodes(
                    elems@,
                ));
            }
            match decode_elements(elems, 0, s, pos) {
                Ok((vals, p)) => Ok((TypedValue::Tuple(vals), p)),
                Err(e) => Err(e),
            }
        },
        SchemaNode::Mapping { .. } => match take_varint_u64(s, pos) {
            Option::Some((count, p1)) => match decode_pairs(schema, count, s, p1) {
                Ok((pairs, p)) => Ok((TypedValue::Mapping(pairs), p)),
                Err(e) => Err(e),
            },
            Option::None => Err(Error::DecodeMismatch),
        },
        SchemaNode::Struct { name, data } => match decode_shape_value(data, s, pos) {
            Ok((dv, p)) => Ok((TypedValue::Struct { name: copy_bytes(name), data: dv }, p)),
            Err(e) => Err(e),
        },
        SchemaNode::Enum { name, variants } => match take_varint_u32(s, pos) {
            Option::Some((d, p1)) => {
                proof {
                    crate::schema::lemma_view_variants_props(variants@);
                }
                if (d as usize) < variants.len() {
                    let var = &variants[d as usize];
                    match decode_shape_value(&var.data, s, p1) {
                        Ok((dv, p)) => Ok(
                            (
                                TypedValue::Enum {
                                    name: copy_bytes(name),
                                    variant: copy_bytes(&var.name),
                                    data: dv,
                                },
                                p,
                            ),
                        ),
                        Err(e) => Err(e),
                    }
                } else {
                    Err(Error::DecodeMismatch)
                }
            },
            Option::None => Err(Error::DecodeMismatch),
        },
    }
}

/// Decodes a struct or variant body of the given shape at `pos`.
pub fn decode_shape_value(shape: &DataShape, s: &[u8], pos: usize) -> (r: Result<
    (DataValue, usize),
    Error,
>)
    ensures
        shape_step_model(r) == spec_decode_shape_value(
            crate::schema::view_shape(*shape),
            s@,
            pos as int,
        ),
    decreases shape, 1nat, 0nat,
{
    match shape {
        DataShape::Unit => Ok((DataValue::Unit, pos)),
        DataShape::Newtype(inner) => match decode_value_at(inner, s, pos) {
            Ok((v, p)) => Ok((DataValue::Newtype(Box::new(v)), p)),
            Err(e) => Err(e),
        },
        DataShape::Tuple(elems) => {
            proof {
                crate::schema::lemma_view_nodes_props(elems@);
                assert(crate::schema::view_nodes(elems@).skip(0) =~= crate::schema::view_nodes(
                    elems@,
                ));
            }
            match decode_elements(elems, 0, s, pos) {
                Ok((vals, p)) => Ok((DataValue::Tuple(vals), p)),
                Err(e) => Err(e),
            }
        },
        DataShape::Struct(fields) => {
            proof {
                crate::schema::lemma_view_fields_props(fields@);
                assert(crate::schema::view_fields(fields@).skip(0) =~= crate::schema::view_fields(
                    fields@,
                ));
            }
            match decode_field_values(fields, 0, s, pos) {
                Ok((vals, p)) => Ok((DataValue::Struct(vals), p)),
                Err(e) => Err(e),
            }
        },
    }
}

/// Decodes `count` values of a sequence's inner kind in a row.
fn decode_homogeneous(schema: &SchemaNode, count: u64, s: &[u8], pos: usize) -> (r: Result<
    (Vec<TypedValue>, usize),
    Error,
>)
    ensures
        values_step_model(r) == spec_decode_homogeneous(
            view_node(*schema),
            count as int,
            s@,
            pos as int,
        ),
    decreases schema, 0nat, count,
{
    match schema {
        SchemaNode::Sequence(inner) => {
            if count == 0 {
                let out: Vec<TypedValue> = Vec::new();
                assert(crate::schema::view_values(out@) =~= Seq::<ValueModel>::empty());
                return Ok((out, pos));
            }
            let (v, p) = match decode_value_at(inner, s, pos) {
                Ok(x) => x,
                Err(e) => {
                    return Err(e);
                },
            };
            let (mut rest, end) = match decode_homogeneous(schema, count - 1, s, p) {
                Ok(x) => x,
                Err(e) => {
                    return Err(e);
                },
            };
            let ghost rest_view = rest@;
            rest.insert(0, v);
            proof {
                assert(rest@.subrange(1, rest@.len() as int) =~= rest_view);
                assert(crate::schema::view_values(rest@) =~= seq![view_value(v)]
                    + crate::schema::view_values(rest_view));
            }
            Ok((rest, end))
        },
        _ => Err(Error::DecodeMismatch),
    }
}

/// Decodes `count` key-value pairs of a map in a row.
fn decode_pairs(schema: &SchemaNode, count: u64, s: &[u8], pos: usize) -> (r: Result<
    (Vec<(TypedValue, TypedValue)>, usize),
    Error,
>)
    ensures
        pairs_step_model(r) == spec_decode_pairs(view_node(*schema), count as int, s@, pos as int),
    decreases schema, 0nat, count,
{
    match schema {
        SchemaNode::Mapping { key, val } => {
            if count == 0 {
                let out: Vec<(TypedValue, TypedValue)> = Vec::new();
                assert(crate::schema::view_pairs(out@) =~= Seq::<(ValueModel, ValueModel)>::empty());
                return Ok((out, pos));
            }
            let (kv, p1) = match decode_value_at(key, s, pos) {
                Ok(x) => x,
                Err(e) => {
                    return Err(e);
                },
            };
            let (vv, p2) = match decode_value_at(val, s, p1) {
                Ok(x) => x,
                Err(e) => {
                    return Err(e);
                },
            };
            let (mut rest, end) = match decode_pairs(schema, count - 1, s, p2) {
                Ok(x) => x,
                Err(e) => {
                    return Err(e);
                },
            };
            let ghost rest_view = rest@;
            rest.insert(0, (kv, vv));
            proof {
                assert(rest@.subrange(1, rest@.len() as int) =~= rest_view);
                assert(crate::schema::view_pairs(rest@) =~= seq![(view_value(kv), view_value(vv))]
                    + crate::schema::view_pairs(rest_view));
            }
            Ok((rest, end))
        },
        _ => Err(Error::DecodeMismatch),
    }
}

/// Decodes the elements `from..` of a tuple's kind list in order.
fn decode_elements(elems: &Vec<SchemaNode>, from: usize, s: &[u8], pos: usize) -> (r: Result<
    (Vec<TypedValue>, usize),
    Error,
>)
    requires
        from <= elems@.len(),
    ensures
        values_step_model(r) == spec_decode_elements(
            crate::schema::view_nodes(elems@).skip(from as int),
            s@,
            pos as int,
        ),
    decreases elems, 0nat, elems@.len() - from,
{
    let ghost models = crate::schema::view_nodes(elems@);
    proof {
        crate::schema::lemma_view_nodes_props(elems@);
    }
    if from >= elems.len() {
        let out: Vec<TypedValue> = Vec::new();
        assert(crate::schema::view_values(out@) =~= Seq::<ValueModel>::empty());
        assert(models.skip(from as int).len() == 0);
        return Ok((out, pos));
    }
    proof {
        assert(models.skip(from as int)[0] == view_node(elems@[from as int]));
        assert(models.skip(from as int).subrange(1, models.skip(from as int).len() as int)
            =~= models.skip(from + 1));
    }
    let (v, p) = match decode_value_at(&elems[from], s, pos) {
        Ok(x) => x,
        Err(e) => {
            return Err(e);
        },
    };
    let (mut rest, end) = match decode_elements(elems, from + 1, s, p) {
        Ok(x) => x,
        Err(e) => {
            return Err(e);
        },
    };
    let ghost rest_view = rest@;
    rest.insert(0, v);
    proof {
        assert(rest@.subrange(1, rest@.len() as int) =~= rest_view);
        assert(crate::schema::view_values(rest@) =~= seq![view_value(v)]
            + crate::schema::view_values(rest_view));
    }
    Ok((rest, end))
}

/// Decodes the fields `from..` of a named-field list in declared order.
fn decode_field_values(fields: &Vec<NamedField>, from: usize, s: &[u8], pos: usize) -> (r: Result<
    (Vec<FieldValue>, usize),
    Error,
>)
    requires
        from <= fields@.len(),
    ensures
        field_values_step_model(r) == spec_decode_field_values(
            crate::schema::view_fields(fields@).skip(from as int),
            s@,
            pos as int,
        ),
    decreases fields, 0nat, fields@.len() - from,
{
    let ghost models = crate::schema::view_fields(fields@);
    proof {
        crate::schema::lemma_view_fields_props(fields@);
    }
    if from >= fields.len() {
        let out: Vec<FieldValue> = Vec::new();
        assert(crate::schema::view_field_values(out@) =~= Seq::<
            crate::schema::FieldValueModel,
        >::empty());
        assert(models.skip(from as int).len() == 0);
        return Ok((out, pos));
    }
    proof {
        assert(models.skip(from as int)[0] == crate::schema::view_field(fields@[from as int]));
        assert(models.skip(from as int).subrange(1, models.skip(from as int).len() as int)
            =~= models.skip(from + 1));
    }
    let f = &fields[from];
    let (v, p) = match decode_value_at(&f.ty, s, pos) {
        Ok(x) => x,
        Err(e) => {
            return Err(e);
        },
    };
    let (mut rest, end) = match decode_field_values(fields, from + 1, s, p) {
        Ok(x) => x,
        Err(e) => {
            return Err(e);
        },
    };
    let fv = FieldValue { name: copy_bytes(&f.name), value: v };
    let ghost rest_view = rest@;
    rest.insert(0, fv);
    proof {
        assert(rest@.subrange(1, rest@.len() as int) =~= rest_view);
        assert(crate::schema::view_field_values(rest@) =~= seq![
            crate::schema::view_field_value(rest@[0]),
        ] + crate::schema::view_field_values(rest_view));
    }
    Ok((rest, end))
}

/// Decodes one whole data record against the active schema. The record
/// must parse and consume the entry exactly; anything else is a mismatch.
pub fn decode(entry: &[u8], schema: &SchemaNode) -> (r: Result<TypedValue, Error>)
    ensures
        record_result_model(r) == spec_decode_record(view_node(*schema), entry@),
{
    match decode_value_at(schema, entry, 0) {
        Err(e) => Err(e),
        Ok((v, p)) => {
            if p == entry.len() {
                Ok(v)
            } else {
                Err(Error::DecodeMismatch)
            }
        },
    }
}

/// The mathematical value of an optional schema reference.
pub open spec fn schema_ref_model(o: Option<&SchemaNode>) -> Option<SchemaModel> {
    match o {
        Option::Some(n) => Option::Some(view_node(*n)),
        Option::None => Option::None,
    }
}

/// The decode session over a stream of entries, from entry `i` onward.
///
/// One mutable active-schema slot is carried along, initially empty or
/// pre-seeded with a schema supplied out of band. A schema announcement is
/// accepted directly when a supplied schema's fingerprint matches it (a
/// mismatch is fatal), or resolved through the cache (absence is fatal),
/// and becomes active; a data record decodes against the active schema; an
/// empty entry, a malformed announcement, and a record without an active
/// schema are fatal.
#[verifier::opaque]
pub open spec fn spec_session(
    entries: Seq<Seq<u8>>,
    i: int,
    active: Option<SchemaModel>,
    supplied: Option<SchemaModel>,
    cache: Map<u64, SchemaModel>,
) -> Result<Seq<ValueModel>, Error>
    decreases entries.len() - i,
{
    if i < 0 || i >= entries.len() {
        Ok(Seq::empty())
    } else {
        let e = entries[i];
        if e.len() == 0 {
            Err(Error::EmptyEntry)
        } else if e[0] == ID_SCHEMA {
            if e.len() != 9 {
                Err(Error::MalformedAnnouncement)
            } else {
                let fp = fingerprint_of_bytes(e.subrange(1, 9));
                match supplied {
                    Option::Some(sup) => if fp == spec_fingerprint(sup) {
                        spec_session(entries, i + 1, Option::Some(sup), supplied, cache)
                    } else {
                        Err(Error::SchemaMismatch)
                    },
                    Option::None => if cache.contains_key(fp) {
                        spec_session(entries, i + 1, Option::Some(cache[fp]), supplied, cache)
                    } else {
                        Err(Error::SchemaNotFound(fp))
                    },
                }
            }
        } else {
            match active {
                Option::None => Err(Error::NoActiveSchema),
                Option::Some(m) => match spec_decode_record(m, e) {
                    Err(err) => Err(err),
                    Ok(v) => match spec_session(entries, i + 1, active, supplied, cache) {
                        Err(err) => Err(err),
                        Ok(rest) => Ok(seq![v] + rest),
                    },
                },
            }
        }
    }
}

/// The whole pipeline over a raw flash dump: parse the framed entries,
/// then run the decode session over them.
pub open spec fn spec_unpack(
    partition: Seq<u8>,
    cache: Map<u64, SchemaModel>,
    supplied: Option<SchemaModel>,
) -> Result<Seq<ValueModel>, Error> {
    match spec_entries(partition) {
        Err(e) => Err(e),
        Ok(entries) => spec_session(entries, 0, supplied, supplied, cache),
    }
}

/// A record-list result abstracted to its mathematical value.
pub open spec fn records_result_model(r: Result<Vec<TypedValue>, Error>) -> Result<
    Seq<ValueModel>,
    Error,
> {
    match r {
        Ok(v) => Ok(crate::schema::view_values(v@)),
        Err(e) => Err(e),
    }
}

/// An entry of length 0 always fails the session with [`Error::EmptyEntry`],
/// whatever schema state it arrives in.
pub proof fn lemma_empty_entry_fatal(
    entries: Seq<Seq<u8>>,
    i: int,
    active: Option<SchemaModel>,
    supplied: Option<SchemaModel>,
    cache: Map<u64, SchemaModel>,
)
    requires
        0 <= i < entries.len(),
        entries[i].len() == 0,
    ensures
        spec_session(entries, i, active, supplied, cache) == Err::<Seq<ValueModel>, Error>(
            Error::EmptyEntry,
        ),
{
    reveal_with_fuel(spec_session, 1);
}

/// A data record that arrives while no schema is active always fails the
/// session with [`Error::NoActiveSchema`]; in particular a record that
/// precedes every announcement, with no schema pre-supplied, does.
pub proof fn lemma_record_without_schema_fatal(
    entries: Seq<Seq<u8>>,
    i: int,
    supplied: Option<SchemaModel>,
    cache: Map<u64, SchemaModel>,
)
    requires
        0 <= i < entries.len(),
        entries[i].len() > 0,
        entries[i][0] != ID_SCHEMA,
    ensures
        spec_session(entries, i, Option::None, supplied, cache) == Err::<Seq<ValueModel>, Error>(
            Error::NoActiveSchema,
        ),
{
    reveal_with_fuel(spec_session, 1);
}

proof fn lemma_view_values_push(s: Seq<TypedValue>, v: TypedValue)
    ensures
        crate::schema::view_values(s.push(v)) == crate::schema::view_values(s).push(view_value(v)),
{
    crate::schema::lemma_view_values_props(s.push(v));
    crate::schema::lemma_view_values_props(s);
    assert(crate::schema::view_values(s.push(v)) =~= crate::schema::view_values(s).push(
        view_value(v),
    ));
}

/// Streams every entry of a raw flash dump through the decode session:
/// parses the framed entries, resolves announcements against the supplied
/// schema or the cache, decodes every data record against the active
/// schema, and returns the decoded records in order. The first fatal
/// condition aborts the whole session.
#[verifier::rlimit(100)]
#[verifier::spinoff_prover]
pub fn unpack_partition(
    partition: &[u8],
    schema_cache: &Cache,
    supplied: Option<&SchemaNode>,
) -> (r: Result<Vec<TypedValue>, Error>)
    requires
        schema_cache.wf(),
    ensures
        records_result_model(r) == spec_unpack(
            partition@,
            schema_cache@,
            schema_ref_model(supplied),
        ),
{
    let entries = match parse_queue_entries(partition) {
        Ok(e) => e,
        Err(e) => {
            return Err(e);
        },
    };
    let ghost entry_views = view_byte_lists(entries@);
    let ghost sup = schema_ref_model(supplied);
    let mut out: Vec<TypedValue> = Vec::new();
    let mut active: Option<&SchemaNode> = supplied;
    let n = entries.len();
    let mut i: usize = 0;
    proof {
        reveal_with_fuel(spec_session, 1);
        assert(crate::schema::view_values(out@) =~= Seq::<ValueModel>::empty());
        assert(crate::schema::view_values(out@) + spec_session(
            entry_views,
            0,
            sup,
            sup,
            schema_cache@,
        )->Ok_0 =~= spec_session(entry_views, 0, sup, sup, schema_cache@)->Ok_0);
    }
    while i < n
        invariant
            i <= n,
            n == entries@.len(),
            schema_cache.wf(),
            entry_views == view_byte_lists(entries@),
            spec_entries(partition@) == Ok::<Seq<Seq<u8>>, Error>(entry_views),
            sup == schema_ref_model(supplied),
            (match spec_session(entry_views, i as int, schema_ref_model(active), sup,
                schema_cache@) {
                Ok(rest) => spec_session(entry_views, 0, sup, sup, schema_cache@) == Ok::<
                    Seq<ValueModel>,
                    Error,
                >(crate::schema::view_values(out@) + rest),
                Err(e) => spec_session(entry_views, 0, sup, sup, schema_cache@) == Err::<
                    Seq<ValueModel>,
                    Error,
                >(e),
            }),
        decreases n - i,
    {
        let entry = &entries[i];
        proof {
            reveal_with_fuel(spec_session, 1);
            assert(entry_views[i as int] == entries@[i as int]@);
        }
        match classify(entry.as_slice()) {
            Err(e) => {
                return Err(e);
            },
            Ok(LogEntry::SchemaAnnouncement(fp)) => {
                match supplied {
                    Option::Some(sup_node) => {
                        let sfp = fingerprint(sup_node);
                        if fp == sfp {
                            active = Option::Some(sup_node);
                        } else {
                            return Err(Error::SchemaMismatch);
                        }
                    },
                    Option::None => {
                        match schema_cache.lookup(fp) {
                            Option::Some(node) => {
                                active = Option::Some(node);
                            },
                            Option::None => {
                                return Err(Error::SchemaNotFound(fp));
                            },
                        }
                    },
                }
            },
            Ok(LogEntry::DataRecord(bytes)) => {
                match active {
                    Option::Some(sch) => {
                        match decode(bytes, sch) {
                            Ok(v) => {
                                let ghost out_before = out@;
                                let ghost vm = view_value(v);
                                out.push(v);
                                proof {
                                    lemma_view_values_push(out_before, out@[out@.len() - 1]);
                                    assert(crate::schema::view_values(out_before) + (seq![vm]
                                        + spec_session(
                                        entry_views,
                                        i + 1,
                                        schema_ref_model(active),
                                        sup,
                                        schema_cache@,
                                    )->Ok_0) =~= crate::schema::view_values(out@) + spec_session(
                                        entry_views,
                                        i + 1,
                                        schema_ref_model(active),
                                        sup,
                                        schema_cache@,
                                    )->Ok_0);
                                }
                            },
                            Err(e) => {
                                return Err(e);
                            },
                        }
                    },
                    Option::None => {
                        return Err(Error::NoActiveSchema);
                    },
                }
            },
        }
        i += 1;
    }
    proof {
        reveal_with_fuel(spec_session, 1);
        assert(crate::schema::view_values(out@) + Seq::<ValueModel>::empty() =~= crate::schema::view_values(
            out@,
        ));
    }
    Ok(out)
}

/// Decodes a partition image and hands back its records, in iteration
/// order.
pub fn output_records(
    partition: &[u8],
    schema_cache: &Cache,
    supplied: Option<&SchemaNode>,
) -> (r: Result<Vec<TypedValue>, Error>)
    requires
        schema_cache.wf(),
    ensures
        records_result_model(r) == spec_unpack(
            partition@,
            schema_cache@,
            schema_ref_model(supplied),
        ),
{
    unpack_partition(partition, schema_cache, supplied)
}

/// Builds the schema announcement entry a writer stores ahead of its data
/// records: the reserved marker byte followed by the fingerprint's 8 wire
/// bytes.
pub fn announcement_bytes(fp: u64) -> (r: Vec<u8>)
    ensures
        r@.len() == 9,
        r@[0] == ID_SCHEMA,
        r@.subrange(1, 9) == crate::fingerprint::spec_fingerprint_bytes(fp),
        fingerprint_of_bytes(r@.subrange(1, 9)) == fp,
{
    let mut out: Vec<u8> = Vec::new();
    out.push(ID_SCHEMA);
    let mut bytes = crate::fingerprint::fingerprint_bytes(fp);
    let ghost b = bytes@;
    out.append(&mut bytes);
    proof {
        assert(out@.subrange(1, 9) =~= b);
        crate::fingerprint::lemma_fingerprint_bytes_roundtrip(fp);
    }
    out
}

/// Classification is inverse to announcement building: an entry formed of
/// the marker byte and a fingerprint's wire bytes classifies as an
/// announcement of exactly that fingerprint, and any entry with a
/// different leading byte classifies as a data record.
pub proof fn lemma_classify_announcement_roundtrip(fp: u64, e: Seq<u8>)
    requires
        e.len() == 9,
        e[0] == ID_SCHEMA,
        e.subrange(1, 9) == crate::fingerprint::spec_fingerprint_bytes(fp),
    ensures
        fingerprint_of_bytes(e.subrange(1, 9)) == fp,
{
    crate::fingerprint::lemma_fingerprint_bytes_roundtrip(fp);
}

} // verus!

