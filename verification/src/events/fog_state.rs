//! `FOG_STATE` (28): sets some of the type, colour, altitude and density
//! range of the default fog.
//!
//! A record without a type stores the linear type; one record of Recoil's
//! sixth mission stores the type off instead, and is read and written as it
//! is where the offset of the record in its file is given.
use vstd::prelude::*;
use crate::anim_def::{AnimDef, AnimDefV};
use crate::error::Error;
use crate::flags::{bit, bit_exec, lemma_word4, word4, word4_exec};
use crate::float;
use crate::model::{
    color_is_black, color_is_black_exec, color_is_valid, color_is_valid_exec, range_is_zero,
    range_is_zero_exec, Color, Range,
};
use crate::record::{
    conforms_all, decode, decode_record, encode, encode_record, fields_view, get_bytes, get_u32,
    lemma_decode_conforms, lemma_decode_encode, lemma_encode_size, size, w32, wbytes, FieldV, Fld,
    Kind,
};
use crate::text::bytes_eq;

use crate::record::{lemma_conforming_fields, lemma_encode_decode};
use crate::flags::{lemma_word4_rebuild};
use crate::model::{range_no_neg_zero, color_no_neg_zero};
verus! {

/// How fog thickens with distance.
#[derive(Clone, Copy, Debug, PartialEq, Eq, Structural)]
pub enum FogType {
    Off,
    Linear,
    Exponential,
}

/// A `FOG_STATE` event: each part is set where present.
#[derive(Clone, Copy, Debug)]
pub struct FogState {
    pub type_: Option<FogType>,
    pub color: Option<Color>,
    pub altitude: Option<Range>,
    pub range: Option<Range>,
}

impl DeepView for FogState {
    type V = FogState;

    open spec fn deep_view(&self) -> FogState {
        *self
    }
}

/// Size of the record.
pub const SIZE: u32 = 68;

/// The name of the only fog: `default_fog_name`, zero-padded to 32 bytes.
#[verifier::opaque]
pub open spec fn default_fog_name() -> Seq<u8> {
    seq![
        0x64u8, 0x65, 0x66, 0x61, 0x75, 0x6C, 0x74, 0x5F, 0x66, 0x6F, 0x67, 0x5F, 0x6E, 0x61, 0x6D,
        0x65,
    ] + Seq::new(16, |i: int| 0u8)
}

fn default_fog_name_exec() -> (r: Vec<u8>)
    ensures
        r@ == default_fog_name(),
{
    let mut r = vec![
        0x64u8, 0x65, 0x66, 0x61, 0x75, 0x6C, 0x74, 0x5F, 0x66, 0x6F, 0x67, 0x5F, 0x6E, 0x61, 0x6D,
        0x65,
    ];
    let ghost prefix = r@;
    let mut i: usize = 0;
    while i < 16
        invariant
            0 <= i <= 16,
            r@ == prefix + Seq::new(i as nat, |k: int| 0u8),
        decreases 16 - i,
    {
        r.push(0);
        i = i + 1;
        proof {
            assert(r@ =~= prefix + Seq::new(i as nat, |k: int| 0u8));
        }
    }
    proof {
        reveal(default_fog_name);
        assert(r@ =~= default_fog_name());
    }
    r
}

/// Flag bits: type, colour, altitude, density range.
pub const FOG_TYPE: u32 = 0;

pub const COLOR: u32 = 1;

pub const ALTITUDE: u32 = 2;

pub const DENSITY: u32 = 3;

/// The stored value of a fog type.
pub open spec fn type_value(t: FogType) -> u32 {
    match t {
        FogType::Off => 0,
        FogType::Linear => 1,
        FogType::Exponential => 2,
    }
}

/// The fog type of a stored value.
pub open spec fn type_of(x: u32) -> Option<FogType> {
    if x == 0 {
        Some(FogType::Off)
    } else if x == 1 {
        Some(FogType::Linear)
    } else if x == 2 {
        Some(FogType::Exponential)
    } else {
        None
    }
}

/// Fields: fog name, flags, type, colour, altitude, density range.
pub open spec fn layout() -> Seq<Kind> {
    seq![Kind::Bytes(32)] + Seq::new(9, |i: int| Kind::U32)
}

fn layout_exec() -> (r: Vec<Kind>)
    ensures
        r@ == layout(),
        size(layout()) == SIZE,
{
    let r = vec![
        Kind::Bytes(32),
        Kind::U32,
        Kind::U32,
        Kind::U32,
        Kind::U32,
        Kind::U32,
        Kind::U32,
        Kind::U32,
        Kind::U32,
        Kind::U32,
    ];
    proof {
        assert(r@ =~= layout());
        reveal_with_fuel(size, 11);
    }
    r
}

/// The stored type of a record without a type: linear (`1`), but off
/// (`0`) for the record at offset 460748 of the animation
/// `m6_start_animation` of the definition `vtol1`.
pub open spec fn default_type(ad: AnimDefV, offset: int) -> u32 {
    if ad.name == seq![0x76u8, 0x74, 0x6F, 0x6C, 0x31] && ad.anim_name == seq![
        0x6Du8,
        0x36,
        0x5F,
        0x73,
        0x74,
        0x61,
        0x72,
        0x74,
        0x5F,
        0x61,
        0x6E,
        0x69,
        0x6D,
        0x61,
        0x74,
        0x69,
        0x6F,
        0x6E,
    ] && offset == 460748 {
        0
    } else {
        1
    }
}

/// The stored type of a record without a type, at `offset` in its file.
pub fn default_type_exec(ad: &AnimDef, offset: usize) -> (r: u32)
    ensures
        r == default_type(ad@, offset as int),
{
    let vtol1: Vec<u8> = vec![0x76u8, 0x74, 0x6F, 0x6C, 0x31];
    let m6: Vec<u8> = vec![
        0x6Du8,
        0x36,
        0x5F,
        0x73,
        0x74,
        0x61,
        0x72,
        0x74,
        0x5F,
        0x61,
        0x6E,
        0x69,
        0x6D,
        0x61,
        0x74,
        0x69,
        0x6F,
        0x6E,
    ];
    proof {
        assert(vtol1@ =~= seq![0x76u8, 0x74, 0x6F, 0x6C, 0x31]);
        assert(m6@ =~= seq![
            0x6Du8,
            0x36,
            0x5F,
            0x73,
            0x74,
            0x61,
            0x72,
            0x74,
            0x5F,
            0x61,
            0x6E,
            0x69,
            0x6D,
            0x61,
            0x74,
            0x69,
            0x6F,
            0x6E,
        ]);
    }
    if bytes_eq(&ad.name, &vtol1) && bytes_eq(&ad.anim_name, &m6) && offset == 460748 {
        0
    } else {
        1
    }
}

/// The event that the fields of a record describe, if they describe one:
/// the default fog name; only the four known flags; where the type is not
/// set, the stored type `dflt`; a valid colour where set and black
/// otherwise; a zero altitude where not set; a density range that starts
/// above zero and does not fall where set, and a zero one otherwise.
pub open spec fn from_fields(f: Seq<FieldV>, dflt: u32) -> Option<FogState> {
    let fl = w32(f, 1);
    let ty = w32(f, 2);
    let color = Color { r: w32(f, 3), g: w32(f, 4), b: w32(f, 5) };
    let altitude = Range { min: w32(f, 6), max: w32(f, 7) };
    let range = Range { min: w32(f, 8), max: w32(f, 9) };
    if wbytes(f, 0) != default_fog_name() || fl >= 16 {
        None
    } else if bit(fl, FOG_TYPE) && type_of(ty) is None {
        None
    } else if !bit(fl, FOG_TYPE) && ty != dflt {
        None
    } else if bit(fl, COLOR) && !color_is_valid(color) {
        None
    } else if !bit(fl, COLOR) && !color_is_black(color) {
        None
    } else if !bit(fl, ALTITUDE) && !range_is_zero(altitude) {
        None
    } else if bit(fl, DENSITY) && !(float::lt(float::ZERO, range.min) && float::le(
        range.min,
        range.max,
    )) {
        None
    } else if !bit(fl, DENSITY) && !range_is_zero(range) {
        None
    } else {
        Some(
            FogState {
                type_: if bit(fl, FOG_TYPE) {
                    type_of(ty)
                } else {
                    None
                },
                color: if bit(fl, COLOR) {
                    Some(color)
                } else {
                    None
                },
                altitude: if bit(fl, ALTITUDE) {
                    Some(altitude)
                } else {
                    None
                },
                range: if bit(fl, DENSITY) {
                    Some(range)
                } else {
                    None
                },
            },
        )
    }
}

/// The fields of the record of an event, with the stored type `dflt` where
/// it has no type.
pub open spec fn to_fields(v: FogState, dflt: u32) -> Seq<FieldV> {
    let color = match v.color {
        Some(c) => c,
        None => Color { r: 0, g: 0, b: 0 },
    };
    let altitude = match v.altitude {
        Some(a) => a,
        None => Range { min: 0, max: 0 },
    };
    let range = match v.range {
        Some(r) => r,
        None => Range { min: 0, max: 0 },
    };
    seq![
        FieldV::Bytes(default_fog_name()),
        FieldV::U32(word4(v.type_ is Some, v.color is Some, v.altitude is Some, v.range is Some)),
        FieldV::U32(
            match v.type_ {
                Some(t) => type_value(t),
                None => dflt,
            },
        ),
        FieldV::U32(color.r),
        FieldV::U32(color.g),
        FieldV::U32(color.b),
        FieldV::U32(altitude.min),
        FieldV::U32(altitude.max),
        FieldV::U32(range.min),
        FieldV::U32(range.max),
    ]
}

/// The event that a record holds, if it holds one, where a record without
/// a type stores `dflt`.
pub open spec fn parse_default(s: Seq<u8>, dflt: u32) -> Option<FogState> {
    if s.len() == SIZE {
        from_fields(decode(layout(), s), dflt)
    } else {
        None
    }
}

/// The record of an event, where a record without a type stores `dflt`.
pub open spec fn serialize_default(v: FogState, dflt: u32) -> Seq<u8> {
    encode(to_fields(v, dflt))
}

/// The event that a record holds, if it holds one.
pub open spec fn parse(ad: AnimDefV, s: Seq<u8>) -> Option<FogState> {
    parse_default(s, 1)
}

/// The record of an event.
pub open spec fn serialize(ad: AnimDefV, v: FogState) -> Option<Seq<u8>> {
    Some(serialize_default(v, 1))
}

/// The event that a record at `offset` in its file holds, if it holds one.
pub open spec fn parse_at(ad: AnimDefV, s: Seq<u8>, offset: int) -> Option<FogState> {
    parse_default(s, default_type(ad, offset))
}

/// The record of an event at `offset` in its file.
pub open spec fn serialize_at(ad: AnimDefV, v: FogState, offset: int) -> Seq<u8> {
    serialize_default(v, default_type(ad, offset))
}

fn read_default(data: &[u8], dflt: u32) -> (r: Result<FogState, Error>)
    ensures
        match parse_default(data@, dflt) {
            Some(v) => r == Ok::<FogState, Error>(v),
            None => r == Err::<FogState, Error>(Error::Invalid),
        },
{
    if data.len() != 68 {
        return Err(Error::Invalid);
    }
    let l = layout_exec();
    let f = decode_record(data, l.as_slice());
    let ghost fv = fields_view(f@);
    assert forall|i: int| 1 <= i < 10 implies fv[i] is U32 by {
        assert(crate::record::conforms(fv[i], layout()[i]));
    }
    let name = get_bytes(&f, 0);
    let expected = default_fog_name_exec();
    let fl = get_u32(&f, 1);
    let ty = get_u32(&f, 2);
    let color = Color { r: get_u32(&f, 3), g: get_u32(&f, 4), b: get_u32(&f, 5) };
    let altitude = Range { min: get_u32(&f, 6), max: get_u32(&f, 7) };
    let range = Range { min: get_u32(&f, 8), max: get_u32(&f, 9) };
    if !bytes_eq(name, &expected) || fl >= 16 {
        return Err(Error::Invalid);
    }
    let has_type = bit_exec(fl, FOG_TYPE);
    let has_color = bit_exec(fl, COLOR);
    let has_altitude = bit_exec(fl, ALTITUDE);
    let has_range = bit_exec(fl, DENSITY);
    let type_ = if has_type {
        if ty == 0 {
            Some(FogType::Off)
        } else if ty == 1 {
            Some(FogType::Linear)
        } else if ty == 2 {
            Some(FogType::Exponential)
        } else {
            return Err(Error::Invalid);
        }
    } else {
        if ty != dflt {
            return Err(Error::Invalid);
        }
        None
    };
    if has_color && !color_is_valid_exec(color) {
        return Err(Error::Invalid);
    }
    if !has_color && !color_is_black_exec(color) {
        return Err(Error::Invalid);
    }
    if !has_altitude && !range_is_zero_exec(altitude) {
        return Err(Error::Invalid);
    }
    if has_range && !(float::f32_lt(float::ZERO, range.min) && float::f32_le(range.min, range.max)) {
        return Err(Error::Invalid);
    }
    if !has_range && !range_is_zero_exec(range) {
        return Err(Error::Invalid);
    }
    Ok(
        FogState {
            type_,
            color: if has_color {
                Some(color)
            } else {
                None
            },
            altitude: if has_altitude {
                Some(altitude)
            } else {
                None
            },
            range: if has_range {
                Some(range)
            } else {
                None
            },
        },
    )
}

/// Reads a `FOG_STATE` record.
pub fn read(data: &[u8], ad: &AnimDef) -> (r: Result<FogState, Error>)
    ensures
        match parse(ad@, data@) {
            Some(v) => r == Ok::<FogState, Error>(v),
            None => r == Err::<FogState, Error>(Error::Invalid),
        },
{
    read_default(data, 1)
}

/// Reads a `FOG_STATE` record at `offset` in its file.
pub fn read_at(data: &[u8], ad: &AnimDef, offset: usize) -> (r: Result<FogState, Error>)
    ensures
        match parse_at(ad@, data@, offset as int) {
            Some(v) => r == Ok::<FogState, Error>(v),
            None => r == Err::<FogState, Error>(Error::Invalid),
        },
{
    read_default(data, default_type_exec(ad, offset))
}

fn write_default(v: &FogState, dflt: u32, out: &mut Vec<u8>)
    ensures
        final(out)@ == old(out)@ + serialize_default(*v, dflt),
{
    let fl = word4_exec(v.type_.is_some(), v.color.is_some(), v.altitude.is_some(), v.range.is_some());
    let ty: u32 = match v.type_ {
        Some(FogType::Off) => 0,
        Some(FogType::Linear) => 1,
        Some(FogType::Exponential) => 2,
        None => dflt,
    };
    let color = match v.color {
        Some(c) => c,
        None => Color { r: 0, g: 0, b: 0 },
    };
    let altitude = match v.altitude {
        Some(a) => a,
        None => Range { min: 0, max: 0 },
    };
    let range = match v.range {
        Some(r) => r,
        None => Range { min: 0, max: 0 },
    };
    let name = default_fog_name_exec();
    let fs = vec![
        Fld::Bytes(name),
        Fld::U32(fl),
        Fld::U32(ty),
        Fld::U32(color.r),
        Fld::U32(color.g),
        Fld::U32(color.b),
        Fld::U32(altitude.min),
        Fld::U32(altitude.max),
        Fld::U32(range.min),
        Fld::U32(range.max),
    ];
    proof {
        assert(fields_view(fs@) =~= to_fields(*v, dflt));
    }
    encode_record(&fs, out);
}

/// Writes a `FOG_STATE` record.
pub fn write(v: &FogState, ad: &AnimDef, out: &mut Vec<u8>) -> (r: Result<(), Error>)
    ensures
        match serialize(ad@, v.deep_view()) {
            Some(b) => r is Ok && final(out)@ == old(out)@ + b,
            None => r == Err::<(), Error>(Error::Invalid) && final(out)@ == old(out)@,
        },
{
    write_default(v, 1, out);
    Ok(())
}

/// Writes a `FOG_STATE` record at `offset` in its file.
pub fn write_at(v: &FogState, ad: &AnimDef, offset: usize, out: &mut Vec<u8>)
    ensures
        final(out)@ == old(out)@ + serialize_at(ad@, *v, offset as int),
{
    write_default(v, default_type_exec(ad, offset), out);
}

/// Writing an event that was read, then reading it again, gives the same
/// event, whatever a record without a type stores.
pub proof fn lemma_reread_default(s: Seq<u8>, dflt: u32)
    requires
        parse_default(s, dflt) is Some,
    ensures
        parse_default(serialize_default(parse_default(s, dflt).unwrap(), dflt), dflt)
            == parse_default(s, dflt),
{
    let v = parse_default(s, dflt).unwrap();
    lemma_word4(v.type_ is Some, v.color is Some, v.altitude is Some, v.range is Some);
    let g = to_fields(v, dflt);
    reveal(default_fog_name);
    assert(default_fog_name().len() == 32);
    assert(conforms_all(g, layout()));
    lemma_decode_encode(g, layout());
    lemma_encode_size(g, layout());
    reveal_with_fuel(size, 11);
}

/// Writing an event that was read, then reading it again, gives the same
/// event.
pub proof fn lemma_reread(ad: AnimDefV, s: Seq<u8>)
    requires
        parse(ad, s) is Some,
    ensures
        serialize(ad, parse(ad, s).unwrap()) matches Some(b) && parse(ad, b) == parse(ad, s),
{
    lemma_reread_default(s, 1);
}

/// Writing an event that was read at an offset, at the same offset, then
/// reading it again, gives the same event.
pub proof fn lemma_reread_at(ad: AnimDefV, s: Seq<u8>, offset: int)
    requires
        parse_at(ad, s, offset) is Some,
    ensures
        parse_at(ad, serialize_at(ad, parse_at(ad, s, offset).unwrap(), offset), offset)
            == parse_at(ad, s, offset),
{
    lemma_reread_default(s, default_type(ad, offset));
}

/// A record that is written has the record's size, whatever a record
/// without a type stores.
pub proof fn lemma_written_size_default(v: FogState, dflt: u32)
    ensures
        serialize_default(v, dflt).len() == SIZE,
{
    let g = to_fields(v, dflt);
    reveal(default_fog_name);
    assert(default_fog_name().len() == 32);
    assert(conforms_all(g, layout()));
    lemma_encode_size(g, layout());
    reveal_with_fuel(size, 11);
}

/// A record that is written has the record's size.
pub proof fn lemma_written_size(ad: AnimDefV, v: FogState)
    requires
        serialize(ad, v) is Some,
    ensures
        serialize(ad, v).unwrap().len() == SIZE,
{
    lemma_written_size_default(v, 1);
}

/// The record is written back exactly as read: a colour, altitude or range that is
/// not set has no `-0.0`.
pub open spec fn exact_record(ad: AnimDefV, s: Seq<u8>) -> bool {
    let f = decode(layout(), s);
    let fl = w32(f, 1);
    &&& !bit(fl, COLOR) ==> color_no_neg_zero(Color { r: w32(f, 3), g: w32(f, 4), b: w32(f, 5) })
    &&& !bit(fl, ALTITUDE) ==> range_no_neg_zero(Range { min: w32(f, 6), max: w32(f, 7) })
    &&& !bit(fl, DENSITY) ==> range_no_neg_zero(Range { min: w32(f, 8), max: w32(f, 9) })
}

/// Writing the event of a record gives the record back, where the record is
/// written back exactly.
pub proof fn lemma_exact(ad: AnimDefV, s: Seq<u8>)
    requires
        parse(ad, s) is Some,
        exact_record(ad, s),
    ensures
        serialize(ad, parse(ad, s).unwrap()) == Some(s),
{
    let f = decode(layout(), s);
    reveal_with_fuel(size, 11);
    lemma_decode_conforms(layout(), s);
    lemma_encode_decode(layout(), s);
    lemma_conforming_fields(f, layout());
    reveal(default_fog_name);
    lemma_word4_rebuild(w32(f, 1));
    assert(to_fields(parse(ad, s).unwrap(), 1) =~= f);
}

/// Writing the event of a record that was read at an offset in its file,
/// at the same offset, gives the record back, where the record is written
/// back exactly.
pub proof fn lemma_exact_at(ad: AnimDefV, s: Seq<u8>, offset: int)
    requires
        parse_at(ad, s, offset) is Some,
        exact_record(ad, s),
    ensures
        serialize_at(ad, parse_at(ad, s, offset).unwrap(), offset) == s,
{
    let f = decode(layout(), s);
    let dflt = default_type(ad, offset);
    reveal_with_fuel(size, 11);
    lemma_decode_conforms(layout(), s);
    lemma_encode_decode(layout(), s);
    lemma_conforming_fields(f, layout());
    reveal(default_fog_name);
    lemma_word4_rebuild(w32(f, 1));
    assert(to_fields(parse_at(ad, s, offset).unwrap(), dflt) =~= f);
}

/// An event read from a record holds the record's numbers, little-endian,
/// under the flag word at offset 32: its type is present exactly where bit
/// `FOG_TYPE` is set, and is then off, linear or exponential where the
/// number at offset 36 is `0`, `1` or `2` (where absent, that number is
/// `dflt`); its colour, altitude and range are present exactly where bits
/// `COLOR`, `ALTITUDE` and `DENSITY` are set, and are then the numbers at
/// offsets 40 to 48, 52 and 56, and 60 and 64.
pub proof fn lemma_read_bytes(s: Seq<u8>, dflt: u32)
    requires
        parse_default(s, dflt) is Some,
    ensures
        ({
            let v = parse_default(s, dflt).unwrap();
            let fl = crate::record::le32_at(s, 32);
            let ty = crate::record::le32_at(s, 36);
            &&& (v.type_ is Some) == bit(fl, FOG_TYPE)
            &&& match v.type_ {
                None => ty == dflt,
                Some(FogType::Off) => ty == 0,
                Some(FogType::Linear) => ty == 1,
                Some(FogType::Exponential) => ty == 2,
            }
            &&& (v.color is Some) == bit(fl, COLOR)
            &&& v.color matches Some(c) ==> c == Color { r: crate::record::le32_at(s, 40), g: crate::record::le32_at(s, 44), b: crate::record::le32_at(s, 48) }
            &&& (v.altitude is Some) == bit(fl, ALTITUDE)
            &&& v.altitude matches Some(a) ==> a == Range { min: crate::record::le32_at(s, 52), max: crate::record::le32_at(s, 56) }
            &&& (v.range is Some) == bit(fl, DENSITY)
            &&& v.range matches Some(r) ==> r == Range { min: crate::record::le32_at(s, 60), max: crate::record::le32_at(s, 64) }
        }),
{
    crate::record::lemma_size_append(seq![Kind::Bytes(32)], Seq::new(9, |i: int| Kind::U32));
    crate::record::lemma_u32_size(9);
    assert(size(seq![Kind::Bytes(32)]) == 32) by {
        reveal_with_fuel(size, 2);
    }
    crate::record::lemma_named_u32_offset(32, 9, 1);
    crate::record::lemma_numbers_at(layout(), s, 1);
    crate::record::lemma_named_u32_offset(32, 9, 2);
    crate::record::lemma_numbers_at(layout(), s, 2);
    crate::record::lemma_named_u32_offset(32, 9, 3);
    crate::record::lemma_numbers_at(layout(), s, 3);
    crate::record::lemma_named_u32_offset(32, 9, 4);
    crate::record::lemma_numbers_at(layout(), s, 4);
    crate::record::lemma_named_u32_offset(32, 9, 5);
    crate::record::lemma_numbers_at(layout(), s, 5);
    crate::record::lemma_named_u32_offset(32, 9, 6);
    crate::record::lemma_numbers_at(layout(), s, 6);
    crate::record::lemma_named_u32_offset(32, 9, 7);
    crate::record::lemma_numbers_at(layout(), s, 7);
    crate::record::lemma_named_u32_offset(32, 9, 8);
    crate::record::lemma_numbers_at(layout(), s, 8);
    crate::record::lemma_named_u32_offset(32, 9, 9);
    crate::record::lemma_numbers_at(layout(), s, 9);
}

/// The record written for an event holds, little-endian, at offset 32 a
/// flag word whose bits `FOG_TYPE`, `COLOR`, `ALTITUDE` and `DENSITY` are set
/// exactly where its type, colour, altitude and range are present; at
/// offset 36 `0`, `1` or `2` for a type off, linear or exponential (`dflt`
/// where it has none); and its colour, altitude and range at offsets 40 to
/// 48, 52 and 56, and 60 and 64 (zero where absent).
pub proof fn lemma_written_bytes(v: FogState, dflt: u32)
    ensures
        ({
            let b = serialize_default(v, dflt);
            let fl = crate::record::le32_at(b, 32);
            let ty = crate::record::le32_at(b, 36);
            &&& bit(fl, FOG_TYPE) == (v.type_ is Some)
            &&& bit(fl, COLOR) == (v.color is Some)
            &&& bit(fl, ALTITUDE) == (v.altitude is Some)
            &&& bit(fl, DENSITY) == (v.range is Some)
            &&& match v.type_ {
                None => ty == dflt,
                Some(FogType::Off) => ty == 0,
                Some(FogType::Linear) => ty == 1,
                Some(FogType::Exponential) => ty == 2,
            }
            &&& match v.color {
                Some(c) => crate::record::le32_at(b, 40) == c.r && crate::record::le32_at(b, 44) == c.g && crate::record::le32_at(b, 48) == c.b,
                None => crate::record::le32_at(b, 40) == 0 && crate::record::le32_at(b, 44) == 0 && crate::record::le32_at(b, 48) == 0,
            }
            &&& match v.altitude {
                Some(a) => crate::record::le32_at(b, 52) == a.min && crate::record::le32_at(b, 56) == a.max,
                None => crate::record::le32_at(b, 52) == 0 && crate::record::le32_at(b, 56) == 0,
            }
            &&& match v.range {
                Some(r) => crate::record::le32_at(b, 60) == r.min && crate::record::le32_at(b, 64) == r.max,
                None => crate::record::le32_at(b, 60) == 0 && crate::record::le32_at(b, 64) == 0,
            }
        }),
{
    let g = to_fields(v, dflt);
    reveal(default_fog_name);
    assert(default_fog_name().len() == 32);
    assert(conforms_all(g, layout()));
    lemma_word4(v.type_ is Some, v.color is Some, v.altitude is Some, v.range is Some);
    crate::record::lemma_named_u32_offset(32, 9, 1);
    crate::record::lemma_numbers_written(g, layout(), 1);
    crate::record::lemma_named_u32_offset(32, 9, 2);
    crate::record::lemma_numbers_written(g, layout(), 2);
    crate::record::lemma_named_u32_offset(32, 9, 3);
    crate::record::lemma_numbers_written(g, layout(), 3);
    crate::record::lemma_named_u32_offset(32, 9, 4);
    crate::record::lemma_numbers_written(g, layout(), 4);
    crate::record::lemma_named_u32_offset(32, 9, 5);
    crate::record::lemma_numbers_written(g, layout(), 5);
    crate::record::lemma_named_u32_offset(32, 9, 6);
    crate::record::lemma_numbers_written(g, layout(), 6);
    crate::record::lemma_named_u32_offset(32, 9, 7);
    crate::record::lemma_numbers_written(g, layout(), 7);
    crate::record::lemma_named_u32_offset(32, 9, 8);
    crate::record::lemma_numbers_written(g, layout(), 8);
    crate::record::lemma_named_u32_offset(32, 9, 9);
    crate::record::lemma_numbers_written(g, layout(), 9);
}

} // verus!
