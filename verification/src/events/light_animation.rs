//! `LIGHT_ANIMATION` (5): changes the range and colour of a light over time.
use vstd::prelude::*;
use crate::anim_def::{index_of, lemma_name_reread, name_at, AnimDef, AnimDefV};
use crate::error::Error;
use crate::float;
use crate::model::{
    color_is_black, color_is_black_exec, range_is_zero, range_is_zero_exec, Color, Range,
};
use crate::record::{
    conforms_all, decode, decode_record, encode, encode_record, fields_view, get_bytes, get_u32,
    lemma_decode_conforms, lemma_decode_encode, lemma_encode_size, size, w32, wbytes, FieldV, Fld,
    Kind,
};
use crate::text::{bytes_eq, lemma_pad_unpad, pad, pad_exec, unpad, unpad_exec};

use crate::anim_def::{lemma_index_of_name_at};
use crate::record::{lemma_conforming_fields, lemma_encode_decode};
use crate::model::{range_no_neg_zero, color_no_neg_zero};
verus! {

/// A `LIGHT_ANIMATION` event.
#[derive(Debug)]
pub struct LightAnimation<N> {
    pub name: N,
    pub range: Range,
    pub color: Color,
    pub run_time: u32,
    pub range_alt: Option<Range>,
}

impl DeepView for LightAnimation<Vec<u8>> {
    type V = LightAnimation<Seq<u8>>;

    open spec fn deep_view(&self) -> LightAnimation<Seq<u8>> {
        LightAnimation {
            name: self.name@,
            range: self.range,
            color: self.color,
            run_time: self.run_time,
            range_alt: self.range_alt,
        }
    }
}

/// Size of the record.
pub const SIZE: u32 = 100;

/// Fields: light name, light index, range, alternative range, unused
/// range, colour, two unused colours, run time.
pub open spec fn layout() -> Seq<Kind> {
    seq![Kind::Bytes(32)] + Seq::new(17, |i: int| Kind::U32)
}

fn layout_exec() -> (r: Vec<Kind>)
    ensures
        r@ == layout(),
        size(layout()) == SIZE,
{
    let mut r = vec![Kind::Bytes(32)];
    let mut i: usize = 0;
    while i < 17
        invariant
            0 <= i <= 17,
            r@ == seq![Kind::Bytes(32)] + Seq::new(i as nat, |k: int| Kind::U32),
        decreases 17 - i,
    {
        r.push(Kind::U32);
        i = i + 1;
        proof {
            assert(r@ =~= seq![Kind::Bytes(32)] + Seq::new(i as nat, |k: int| Kind::U32));
        }
    }
    proof {
        assert(r@ =~= layout());
        reveal_with_fuel(size, 19);
    }
    r
}

/// The range is in order: unchecked where its start is a zero, rising where
/// it starts at or above zero, falling otherwise.
pub open spec fn range_ok(r: Range) -> bool {
    if float::is_zero(r.min) {
        true
    } else if float::le(float::ZERO, r.min) {
        float::le(r.min, r.max)
    } else {
        float::le(r.max, r.min)
    }
}

/// Every component of the colour lies in `-5.0..=5.0`.
pub open spec fn color_ok(c: Color) -> bool {
    &&& float::in_range(float::NEG_FIVE, c.r, float::FIVE)
    &&& float::in_range(float::NEG_FIVE, c.g, float::FIVE)
    &&& float::in_range(float::NEG_FIVE, c.b, float::FIVE)
}

/// The range of fields `i` and `i + 1`.
pub open spec fn range_at(f: Seq<FieldV>, i: int) -> Range {
    Range { min: w32(f, i), max: w32(f, i + 1) }
}

/// The colour of fields `i` to `i + 2`.
pub open spec fn color_at(f: Seq<FieldV>, i: int) -> Color {
    Color { r: w32(f, i), g: w32(f, i + 1), b: w32(f, i + 2) }
}

/// The event that the fields of a record describe, if they describe one:
/// the name field holds the name of the light that the index refers to,
/// the run time is positive, the range is in order, the colour in range,
/// and the unused values zero.
pub open spec fn from_fields(ad: AnimDefV, f: Seq<FieldV>) -> Option<LightAnimation<Seq<u8>>> {
    let range = range_at(f, 2);
    let alt = range_at(f, 4);
    let color = color_at(f, 8);
    let run_time = w32(f, 17);
    match (unpad(wbytes(f, 0)), name_at(ad.lights, w32(f, 1) as int)) {
        (Some(name), Some(expected)) => if name == expected && float::lt(float::ZERO, run_time)
            && range_ok(range) && range_is_zero(range_at(f, 6)) && color_ok(color)
            && color_is_black(color_at(f, 11)) && color_is_black(color_at(f, 14)) {
            Some(
                LightAnimation {
                    name,
                    range,
                    color,
                    run_time,
                    range_alt: if range_is_zero(alt) {
                        None
                    } else {
                        Some(alt)
                    },
                },
            )
        } else {
            None
        },
        _ => None,
    }
}

/// The fields of the record of an event, if it can be written.
pub open spec fn to_fields(ad: AnimDefV, v: LightAnimation<Seq<u8>>) -> Option<Seq<FieldV>> {
    let alt = match v.range_alt {
        Some(r) => r,
        None => Range { min: 0, max: 0 },
    };
    match (pad(v.name, 32), index_of(ad.lights, v.name)) {
        (Some(nb), Some(li)) => Some(
            seq![
                FieldV::Bytes(nb),
                FieldV::U32(li as u32),
                FieldV::U32(v.range.min),
                FieldV::U32(v.range.max),
                FieldV::U32(alt.min),
                FieldV::U32(alt.max),
                FieldV::U32(0),
                FieldV::U32(0),
                FieldV::U32(v.color.r),
                FieldV::U32(v.color.g),
                FieldV::U32(v.color.b),
                FieldV::U32(0),
                FieldV::U32(0),
                FieldV::U32(0),
                FieldV::U32(0),
                FieldV::U32(0),
                FieldV::U32(0),
                FieldV::U32(v.run_time),
            ],
        ),
        _ => None,
    }
}

/// The event that a record holds, if it holds one.
pub open spec fn parse(ad: AnimDefV, s: Seq<u8>) -> Option<LightAnimation<Seq<u8>>> {
    if s.len() == SIZE {
        from_fields(ad, decode(layout(), s))
    } else {
        None
    }
}

/// The record of an event, if it can be written.
pub open spec fn serialize(ad: AnimDefV, v: LightAnimation<Seq<u8>>) -> Option<Seq<u8>> {
    match to_fields(ad, v) {
        Some(f) => Some(encode(f)),
        None => None,
    }
}

fn range_ok_exec(r: Range) -> (b: bool)
    ensures
        b == range_ok(r),
{
    if float::f32_is_zero(r.min) {
        true
    } else if float::f32_le(float::ZERO, r.min) {
        float::f32_le(r.min, r.max)
    } else {
        float::f32_le(r.max, r.min)
    }
}

fn color_ok_exec(c: Color) -> (b: bool)
    ensures
        b == color_ok(c),
{
    float::f32_in_range(float::NEG_FIVE, c.r, float::FIVE) && float::f32_in_range(
        float::NEG_FIVE,
        c.g,
        float::FIVE,
    ) && float::f32_in_range(float::NEG_FIVE, c.b, float::FIVE)
}

/// Reads a `LIGHT_ANIMATION` record.
pub fn read(data: &[u8], ad: &AnimDef) -> (r: Result<LightAnimation<Vec<u8>>, Error>)
    ensures
        match parse(ad@, data@) {
            Some(v) => r matches Ok(x) && x.deep_view() == v,
            None => r == Err::<LightAnimation<Vec<u8>>, Error>(Error::Invalid),
        },
{
    if data.len() != 100 {
        return Err(Error::Invalid);
    }
    let l = layout_exec();
    let f = decode_record(data, l.as_slice());
    let ghost fv = fields_view(f@);
    assert(forall|i: int| 1 <= i < 18 ==> fv[i] is U32) by {
        assert forall|i: int| 1 <= i < 18 implies fv[i] is U32 by {
            assert(crate::record::conforms(fv[i], layout()[i]));
        }
    }
    let run_time = get_u32(&f, 17);
    let name = match unpad_exec(get_bytes(&f, 0)) {
        Some(n) => n,
        None => return Err(Error::Invalid),
    };
    let expected = ad.light_from_index(get_u32(&f, 1))?;
    if !bytes_eq(&name, &expected) || !float::f32_lt(float::ZERO, run_time) {
        return Err(Error::Invalid);
    }
    let range = Range { min: get_u32(&f, 2), max: get_u32(&f, 3) };
    let alt = Range { min: get_u32(&f, 4), max: get_u32(&f, 5) };
    let unused = Range { min: get_u32(&f, 6), max: get_u32(&f, 7) };
    let color = Color { r: get_u32(&f, 8), g: get_u32(&f, 9), b: get_u32(&f, 10) };
    let black1 = Color { r: get_u32(&f, 11), g: get_u32(&f, 12), b: get_u32(&f, 13) };
    let black2 = Color { r: get_u32(&f, 14), g: get_u32(&f, 15), b: get_u32(&f, 16) };
    if !range_ok_exec(range) || !range_is_zero_exec(unused) || !color_ok_exec(color)
        || !color_is_black_exec(black1) || !color_is_black_exec(black2) {
        return Err(Error::Invalid);
    }
    let range_alt = if range_is_zero_exec(alt) {
        None
    } else {
        Some(alt)
    };
    Ok(LightAnimation { name, range, color, run_time, range_alt })
}

/// Writes a `LIGHT_ANIMATION` record.
pub fn write(v: &LightAnimation<Vec<u8>>, ad: &AnimDef, out: &mut Vec<u8>) -> (r: Result<
    (),
    Error,
>)
    ensures
        match serialize(ad@, v.deep_view()) {
            Some(b) => r is Ok && final(out)@ == old(out)@ + b,
            None => r == Err::<(), Error>(Error::Invalid) && final(out)@ == old(out)@,
        },
{
    let nb = match pad_exec(&v.name, 32) {
        Some(b) => b,
        None => return Err(Error::Invalid),
    };
    let li = ad.light_to_index(&v.name)?;
    let alt = match v.range_alt {
        Some(r) => r,
        None => Range { min: 0, max: 0 },
    };
    let ghost nbv = nb@;
    let fs = vec![
        Fld::Bytes(nb),
        Fld::U32(li as u32),
        Fld::U32(v.range.min),
        Fld::U32(v.range.max),
        Fld::U32(alt.min),
        Fld::U32(alt.max),
        Fld::U32(0),
        Fld::U32(0),
        Fld::U32(v.color.r),
        Fld::U32(v.color.g),
        Fld::U32(v.color.b),
        Fld::U32(0),
        Fld::U32(0),
        Fld::U32(0),
        Fld::U32(0),
        Fld::U32(0),
        Fld::U32(0),
        Fld::U32(v.run_time),
    ];
    proof {
        assert(fields_view(fs@) =~= to_fields(ad@, v.deep_view()).unwrap());
    }
    encode_record(&fs, out);
    Ok(())
}

/// Writing an event that was read, then reading it again, gives the same
/// event.
pub proof fn lemma_reread(ad: AnimDefV, s: Seq<u8>)
    requires
        parse(ad, s) is Some,
    ensures
        serialize(ad, parse(ad, s).unwrap()) matches Some(b) && parse(ad, b) == parse(ad, s),
{
    let f = decode(layout(), s);
    reveal_with_fuel(size, 19);
    lemma_decode_conforms(layout(), s);
    assert(conforms_all(f, layout()));
    assert(crate::record::conforms(f[0], layout()[0]));
    assert(wbytes(f, 0).len() == 32);
    lemma_pad_unpad(wbytes(f, 0));
    lemma_name_reread(ad.lights, w32(f, 1) as int);
    let v = parse(ad, s).unwrap();
    let g = to_fields(ad, v).unwrap();
    assert(conforms_all(g, layout()));
    lemma_decode_encode(g, layout());
    lemma_encode_size(g, layout());
    crate::text::lemma_unpad_pad(v.name, 32);
}

/// A record that is written has the record's size.
pub proof fn lemma_written_size(ad: AnimDefV, v: LightAnimation<Seq<u8>>)
    requires
        serialize(ad, v) is Some,
    ensures
        serialize(ad, v).unwrap().len() == SIZE,
{
    let g = to_fields(ad, v).unwrap();
    assert(conforms_all(g, layout()));
    lemma_encode_size(g, layout());
    reveal_with_fuel(size, 19);
}

/// The record is written back exactly as read: an alternative range that is zero, and the
/// unused values, have no `-0.0`.
pub open spec fn exact_record(ad: AnimDefV, s: Seq<u8>) -> bool {
    let f = decode(layout(), s);
    &&& range_is_zero(range_at(f, 4)) ==> range_no_neg_zero(range_at(f, 4))
    &&& range_no_neg_zero(range_at(f, 6))
    &&& color_no_neg_zero(color_at(f, 11))
    &&& color_no_neg_zero(color_at(f, 14))
}

/// Writing the event of a record gives the record back, where the lights of the
/// definition are distinct and the record is written back exactly.
pub proof fn lemma_exact(ad: AnimDefV, s: Seq<u8>)
    requires
        parse(ad, s) is Some,
        crate::anim_def::unique_names(ad.lights),
        exact_record(ad, s),
    ensures
        serialize(ad, parse(ad, s).unwrap()) == Some(s),
{
    let f = decode(layout(), s);
    reveal_with_fuel(size, 19);
    lemma_decode_conforms(layout(), s);
    lemma_encode_decode(layout(), s);
    lemma_conforming_fields(f, layout());
    crate::text::lemma_pad_unpad(wbytes(f, 0));
    lemma_index_of_name_at(ad.lights, w32(f, 1) as int);
    assert(to_fields(ad, parse(ad, s).unwrap()).unwrap() =~= f);
}

/// An event read from a record holds the record's bytes and numbers,
/// little-endian: its name is the name in the first 32 bytes, and the light
/// that the number at offset 32 refers to; its range is the numbers at
/// offsets 36 and 40; its second range, where it has one, the numbers at
/// offsets 44 and 48 (both zero where it has none); its colour the numbers
/// at offsets 60 to 68; and its run time the number at offset 96.
pub proof fn lemma_read_bytes(ad: AnimDefV, s: Seq<u8>)
    requires
        parse(ad, s) is Some,
    ensures
        ({
            let v = parse(ad, s).unwrap();
            &&& unpad(s.subrange(0, 32)) == Some(v.name)
            &&& name_at(ad.lights, crate::record::le32_at(s, 32) as int) == Some(v.name)
            &&& v.range == Range { min: crate::record::le32_at(s, 36), max: crate::record::le32_at(s, 40) }
            &&& match v.range_alt {
                Some(r) => r == Range { min: crate::record::le32_at(s, 44), max: crate::record::le32_at(s, 48) },
                None => range_is_zero(Range { min: crate::record::le32_at(s, 44), max: crate::record::le32_at(s, 48) }),
            }
            &&& v.color == Color { r: crate::record::le32_at(s, 60), g: crate::record::le32_at(s, 64), b: crate::record::le32_at(s, 68) }
            &&& v.run_time == crate::record::le32_at(s, 96)
        }),
{
    crate::record::lemma_size_append(seq![Kind::Bytes(32)], Seq::new(17, |i: int| Kind::U32));
    crate::record::lemma_u32_size(17);
    assert(size(seq![Kind::Bytes(32)]) == 32) by {
        reveal_with_fuel(size, 2);
    }
    assert(layout().take(0) =~= Seq::<Kind>::empty());
    crate::record::lemma_decode_field(layout(), s, 0);
    crate::record::lemma_named_u32_offset(32, 17, 1);
    crate::record::lemma_numbers_at(layout(), s, 1);
    crate::record::lemma_named_u32_offset(32, 17, 2);
    crate::record::lemma_numbers_at(layout(), s, 2);
    crate::record::lemma_named_u32_offset(32, 17, 3);
    crate::record::lemma_numbers_at(layout(), s, 3);
    crate::record::lemma_named_u32_offset(32, 17, 4);
    crate::record::lemma_numbers_at(layout(), s, 4);
    crate::record::lemma_named_u32_offset(32, 17, 5);
    crate::record::lemma_numbers_at(layout(), s, 5);
    crate::record::lemma_named_u32_offset(32, 17, 8);
    crate::record::lemma_numbers_at(layout(), s, 8);
    crate::record::lemma_named_u32_offset(32, 17, 9);
    crate::record::lemma_numbers_at(layout(), s, 9);
    crate::record::lemma_named_u32_offset(32, 17, 10);
    crate::record::lemma_numbers_at(layout(), s, 10);
    crate::record::lemma_named_u32_offset(32, 17, 17);
    crate::record::lemma_numbers_at(layout(), s, 17);
}

/// The record written for an event holds, little-endian, its name in the
/// first 32 bytes, at offset 32 a number that refers to its light, its
/// range at offsets 36 and 40, its second range at offsets 44 and 48 (zeros
/// where it has none), its colour at offsets 60 to 68 and its run time at
/// offset 96.
pub proof fn lemma_written_bytes(ad: AnimDefV, v: LightAnimation<Seq<u8>>)
    requires
        serialize(ad, v) is Some,
    ensures
        ({
            let b = serialize(ad, v).unwrap();
            &&& unpad(b.subrange(0, 32)) == Some(v.name)
            &&& name_at(ad.lights, crate::record::le32_at(b, 32) as int) == Some(v.name)
            &&& crate::record::le32_at(b, 36) == v.range.min && crate::record::le32_at(b, 40) == v.range.max
            &&& match v.range_alt {
                Some(r) => crate::record::le32_at(b, 44) == r.min && crate::record::le32_at(b, 48) == r.max,
                None => crate::record::le32_at(b, 44) == 0 && crate::record::le32_at(b, 48) == 0,
            }
            &&& crate::record::le32_at(b, 60) == v.color.r && crate::record::le32_at(b, 64) == v.color.g && crate::record::le32_at(b, 68) == v.color.b
            &&& crate::record::le32_at(b, 96) == v.run_time
        }),
{
    let g = to_fields(ad, v).unwrap();
    assert(pad(v.name, 32).unwrap().len() == 32);
    assert(conforms_all(g, layout())) by {
        assert forall|k: int| 0 <= k < g.len() implies #[trigger] crate::record::conforms(
            g[k],
            layout()[k],
        ) by {}
    }
    crate::record::lemma_size_append(seq![Kind::Bytes(32)], Seq::new(17, |i: int| Kind::U32));
    crate::record::lemma_u32_size(17);
    assert(size(seq![Kind::Bytes(32)]) == 32) by {
        reveal_with_fuel(size, 2);
    }
    assert(layout().take(0) =~= Seq::<Kind>::empty());
    crate::text::lemma_unpad_pad(v.name, 32);
    crate::anim_def::lemma_name_at_index_of(ad.lights, v.name);
    crate::record::lemma_encode_size(g, layout());
    crate::record::lemma_decode_encode(g, layout());
    crate::record::lemma_decode_field(layout(), encode(g), 0);
    crate::record::lemma_named_u32_offset(32, 17, 1);
    crate::record::lemma_numbers_written(g, layout(), 1);
    crate::record::lemma_named_u32_offset(32, 17, 2);
    crate::record::lemma_numbers_written(g, layout(), 2);
    crate::record::lemma_named_u32_offset(32, 17, 3);
    crate::record::lemma_numbers_written(g, layout(), 3);
    crate::record::lemma_named_u32_offset(32, 17, 4);
    crate::record::lemma_numbers_written(g, layout(), 4);
    crate::record::lemma_named_u32_offset(32, 17, 5);
    crate::record::lemma_numbers_written(g, layout(), 5);
    crate::record::lemma_named_u32_offset(32, 17, 8);
    crate::record::lemma_numbers_written(g, layout(), 8);
    crate::record::lemma_named_u32_offset(32, 17, 9);
    crate::record::lemma_numbers_written(g, layout(), 9);
    crate::record::lemma_named_u32_offset(32, 17, 10);
    crate::record::lemma_numbers_written(g, layout(), 10);
    crate::record::lemma_named_u32_offset(32, 17, 17);
    crate::record::lemma_numbers_written(g, layout(), 17);
}

} // verus!
