//! `FBFX_COLOR_FROM_TO` (36): fades the screen colour over time.
//!
//! Each channel is stored with its per-second change, `(to - from) /
//! run_time` in floating point; the stored changes are kept as they are,
//! and comparing them with the computed ones is left to the caller.
use vstd::prelude::*;
use crate::anim_def::{AnimDef, AnimDefV};
use crate::error::Error;
use crate::float;
use crate::record::{
    conforms_all, decode, decode_record, encode, encode_record, fields_view, get_u32,
    lemma_decode_encode, lemma_encode_size, size, w32, FieldV, Fld, Kind,
};

use crate::record::{lemma_conforming_fields, lemma_encode_decode, lemma_decode_conforms};
verus! {

/// A colour with alpha, of four `f32` values.
#[derive(Clone, Copy, Debug, PartialEq, Eq, Structural)]
pub struct Rgba {
    pub r: u32,
    pub g: u32,
    pub b: u32,
    pub a: u32,
}

/// A `FBFX_COLOR_FROM_TO` event.
#[derive(Clone, Copy, Debug)]
pub struct FbfxColorFromTo {
    pub from: Rgba,
    pub to: Rgba,
    /// The stored per-second change of each channel.
    pub delta: Rgba,
    pub run_time: u32,
}

impl DeepView for FbfxColorFromTo {
    type V = FbfxColorFromTo;

    open spec fn deep_view(&self) -> FbfxColorFromTo {
        *self
    }
}

/// Size of the record.
pub const SIZE: u32 = 52;

/// Fields: from, to and change of red, green, blue and alpha; run time.
pub open spec fn layout() -> Seq<Kind> {
    Seq::new(13, |i: int| Kind::U32)
}

fn layout_exec() -> (r: Vec<Kind>)
    ensures
        r@ == layout(),
        size(layout()) == SIZE,
{
    let mut r: Vec<Kind> = Vec::new();
    let mut i: usize = 0;
    while i < 13
        invariant
            0 <= i <= 13,
            r@ == Seq::new(i as nat, |k: int| Kind::U32),
        decreases 13 - i,
    {
        r.push(Kind::U32);
        i = i + 1;
        proof {
            assert(r@ =~= Seq::new(i as nat, |k: int| Kind::U32));
        }
    }
    proof {
        reveal_with_fuel(size, 14);
    }
    r
}

/// `x` lies in `0.0..=1.0`.
pub open spec fn unit(x: u32) -> bool {
    float::in_range(float::ZERO, x, float::ONE)
}

/// The event that the fields of a record describe, if they describe one:
/// a positive run time, and the checked channel ends in `0.0..=1.0` (the
/// start of green and of blue is not checked).
pub open spec fn from_fields(f: Seq<FieldV>) -> Option<FbfxColorFromTo> {
    let v = FbfxColorFromTo {
        from: Rgba { r: w32(f, 0), g: w32(f, 3), b: w32(f, 6), a: w32(f, 9) },
        to: Rgba { r: w32(f, 1), g: w32(f, 4), b: w32(f, 7), a: w32(f, 10) },
        delta: Rgba { r: w32(f, 2), g: w32(f, 5), b: w32(f, 8), a: w32(f, 11) },
        run_time: w32(f, 12),
    };
    if float::lt(float::ZERO, v.run_time) && unit(v.from.r) && unit(v.to.r) && unit(v.to.g) && unit(
        v.to.b,
    ) && unit(v.from.a) && unit(v.to.a) {
        Some(v)
    } else {
        None
    }
}

/// The fields of the record of an event.
pub open spec fn to_fields(v: FbfxColorFromTo) -> Seq<FieldV> {
    seq![
        FieldV::U32(v.from.r),
        FieldV::U32(v.to.r),
        FieldV::U32(v.delta.r),
        FieldV::U32(v.from.g),
        FieldV::U32(v.to.g),
        FieldV::U32(v.delta.g),
        FieldV::U32(v.from.b),
        FieldV::U32(v.to.b),
        FieldV::U32(v.delta.b),
        FieldV::U32(v.from.a),
        FieldV::U32(v.to.a),
        FieldV::U32(v.delta.a),
        FieldV::U32(v.run_time),
    ]
}

/// The event that a record holds, if it holds one.
pub open spec fn parse(ad: AnimDefV, s: Seq<u8>) -> Option<FbfxColorFromTo> {
    if s.len() == SIZE {
        from_fields(decode(layout(), s))
    } else {
        None
    }
}

/// The record of an event.
pub open spec fn serialize(ad: AnimDefV, v: FbfxColorFromTo) -> Option<Seq<u8>> {
    Some(encode(to_fields(v)))
}

/// Reads a `FBFX_COLOR_FROM_TO` record.
pub fn read(data: &[u8], ad: &AnimDef) -> (r: Result<FbfxColorFromTo, Error>)
    ensures
        match parse(ad@, data@) {
            Some(v) => r == Ok::<FbfxColorFromTo, Error>(v),
            None => r == Err::<FbfxColorFromTo, Error>(Error::Invalid),
        },
{
    if data.len() != 52 {
        return Err(Error::Invalid);
    }
    let l = layout_exec();
    let f = decode_record(data, l.as_slice());
    let ghost fv = fields_view(f@);
    assert forall|i: int| 0 <= i < 13 implies fv[i] is U32 by {
        assert(crate::record::conforms(fv[i], layout()[i]));
    }
    let v = FbfxColorFromTo {
        from: Rgba { r: get_u32(&f, 0), g: get_u32(&f, 3), b: get_u32(&f, 6), a: get_u32(&f, 9) },
        to: Rgba { r: get_u32(&f, 1), g: get_u32(&f, 4), b: get_u32(&f, 7), a: get_u32(&f, 10) },
        delta: Rgba { r: get_u32(&f, 2), g: get_u32(&f, 5), b: get_u32(&f, 8), a: get_u32(&f, 11) },
        run_time: get_u32(&f, 12),
    };
    let one = float::ONE;
    let zero = float::ZERO;
    if float::f32_lt(zero, v.run_time) && float::f32_in_range(zero, v.from.r, one)
        && float::f32_in_range(zero, v.to.r, one) && float::f32_in_range(zero, v.to.g, one)
        && float::f32_in_range(zero, v.to.b, one) && float::f32_in_range(zero, v.from.a, one)
        && float::f32_in_range(zero, v.to.a, one) {
        Ok(v)
    } else {
        Err(Error::Invalid)
    }
}

/// Writes a `FBFX_COLOR_FROM_TO` record.
pub fn write(v: &FbfxColorFromTo, ad: &AnimDef, out: &mut Vec<u8>) -> (r: Result<(), Error>)
    ensures
        match serialize(ad@, v.deep_view()) {
            Some(b) => r is Ok && final(out)@ == old(out)@ + b,
            None => r == Err::<(), Error>(Error::Invalid) && final(out)@ == old(out)@,
        },
{
    let fs = vec![
        Fld::U32(v.from.r),
        Fld::U32(v.to.r),
        Fld::U32(v.delta.r),
        Fld::U32(v.from.g),
        Fld::U32(v.to.g),
        Fld::U32(v.delta.g),
        Fld::U32(v.from.b),
        Fld::U32(v.to.b),
        Fld::U32(v.delta.b),
        Fld::U32(v.from.a),
        Fld::U32(v.to.a),
        Fld::U32(v.delta.a),
        Fld::U32(v.run_time),
    ];
    proof {
        assert(fields_view(fs@) =~= to_fields(*v));
    }
    encode_record(&fs, out);
    Ok(())
}

/// Writing an event that was read, then reading it again, gives the same
/// event.
pub proof fn lemma_reread(ad: AnimDefV, s: Seq<u8>)
    requires
        parse(ad, s) is Some,
    ensures
        serialize(ad, parse(ad, s).unwrap()) matches Some(b) && parse(ad, b) == parse(ad, s),
{
    let g = to_fields(parse(ad, s).unwrap());
    assert(conforms_all(g, layout()));
    lemma_decode_encode(g, layout());
    lemma_encode_size(g, layout());
    reveal_with_fuel(size, 14);
}

/// A record that is written has the record's size.
pub proof fn lemma_written_size(ad: AnimDefV, v: FbfxColorFromTo)
    requires
        serialize(ad, v) is Some,
    ensures
        serialize(ad, v).unwrap().len() == SIZE,
{
    let g = to_fields(v);
    assert(conforms_all(g, layout()));
    lemma_encode_size(g, layout());
    reveal_with_fuel(size, 14);
}

/// The record is written back exactly as read: always.
pub open spec fn exact_record(ad: AnimDefV, s: Seq<u8>) -> bool {
    true
}

/// Writing the event of a record gives the record back, where the record is
/// written back exactly.
pub proof fn lemma_exact(ad: AnimDefV, s: Seq<u8>)
    requires
        parse(ad, s) is Some,
        exact_record(ad, s),
    ensures
        serialize(ad, parse(ad, s).unwrap()) == Some(s),
{
    let f = decode(layout(), s);
    reveal_with_fuel(size, 14);
    lemma_decode_conforms(layout(), s);
    lemma_encode_decode(layout(), s);
    lemma_conforming_fields(f, layout());

    assert(to_fields(parse(ad, s).unwrap()) =~= f);
}

/// An event read from a record holds the record's thirteen numbers,
/// little-endian: for red, green, blue and alpha in turn, the value from,
/// the value to and the change, then the run time.
pub proof fn lemma_read_bytes(ad: AnimDefV, s: Seq<u8>)
    requires
        parse(ad, s) is Some,
    ensures
        ({
            let v = parse(ad, s).unwrap();
            &&& v.from.r == crate::record::le32_at(s, 0)
            &&& v.to.r == crate::record::le32_at(s, 4)
            &&& v.delta.r == crate::record::le32_at(s, 8)
            &&& v.from.g == crate::record::le32_at(s, 12)
            &&& v.to.g == crate::record::le32_at(s, 16)
            &&& v.delta.g == crate::record::le32_at(s, 20)
            &&& v.from.b == crate::record::le32_at(s, 24)
            &&& v.to.b == crate::record::le32_at(s, 28)
            &&& v.delta.b == crate::record::le32_at(s, 32)
            &&& v.from.a == crate::record::le32_at(s, 36)
            &&& v.to.a == crate::record::le32_at(s, 40)
            &&& v.delta.a == crate::record::le32_at(s, 44)
            &&& v.run_time == crate::record::le32_at(s, 48)
        }),
{
    crate::record::lemma_u32_size(13);
    crate::record::lemma_u32_offset(13, 0);
    crate::record::lemma_numbers_at(layout(), s, 0);
    crate::record::lemma_u32_offset(13, 1);
    crate::record::lemma_numbers_at(layout(), s, 1);
    crate::record::lemma_u32_offset(13, 2);
    crate::record::lemma_numbers_at(layout(), s, 2);
    crate::record::lemma_u32_offset(13, 3);
    crate::record::lemma_numbers_at(layout(), s, 3);
    crate::record::lemma_u32_offset(13, 4);
    crate::record::lemma_numbers_at(layout(), s, 4);
    crate::record::lemma_u32_offset(13, 5);
    crate::record::lemma_numbers_at(layout(), s, 5);
    crate::record::lemma_u32_offset(13, 6);
    crate::record::lemma_numbers_at(layout(), s, 6);
    crate::record::lemma_u32_offset(13, 7);
    crate::record::lemma_numbers_at(layout(), s, 7);
    crate::record::lemma_u32_offset(13, 8);
    crate::record::lemma_numbers_at(layout(), s, 8);
    crate::record::lemma_u32_offset(13, 9);
    crate::record::lemma_numbers_at(layout(), s, 9);
    crate::record::lemma_u32_offset(13, 10);
    crate::record::lemma_numbers_at(layout(), s, 10);
    crate::record::lemma_u32_offset(13, 11);
    crate::record::lemma_numbers_at(layout(), s, 11);
    crate::record::lemma_u32_offset(13, 12);
    crate::record::lemma_numbers_at(layout(), s, 12);
}

/// The record written for an event holds its thirteen numbers,
/// little-endian: for red, green, blue and alpha in turn, the value from,
/// the value to and the change, then the run time.
pub proof fn lemma_written_bytes(ad: AnimDefV, v: FbfxColorFromTo)
    ensures
        ({
            let b = serialize(ad, v).unwrap();
            &&& crate::record::le32_at(b, 0) == v.from.r
            &&& crate::record::le32_at(b, 4) == v.to.r
            &&& crate::record::le32_at(b, 8) == v.delta.r
            &&& crate::record::le32_at(b, 12) == v.from.g
            &&& crate::record::le32_at(b, 16) == v.to.g
            &&& crate::record::le32_at(b, 20) == v.delta.g
            &&& crate::record::le32_at(b, 24) == v.from.b
            &&& crate::record::le32_at(b, 28) == v.to.b
            &&& crate::record::le32_at(b, 32) == v.delta.b
            &&& crate::record::le32_at(b, 36) == v.from.a
            &&& crate::record::le32_at(b, 40) == v.to.a
            &&& crate::record::le32_at(b, 44) == v.delta.a
            &&& crate::record::le32_at(b, 48) == v.run_time
        }),
{
    let g = to_fields(v);
    assert(conforms_all(g, layout())) by {
        assert forall|k: int| 0 <= k < g.len() implies #[trigger] crate::record::conforms(
            g[k],
            layout()[k],
        ) by {}
    }
    crate::record::lemma_u32_offset(13, 0);
    crate::record::lemma_numbers_written(g, layout(), 0);
    crate::record::lemma_u32_offset(13, 1);
    crate::record::lemma_numbers_written(g, layout(), 1);
    crate::record::lemma_u32_offset(13, 2);
    crate::record::lemma_numbers_written(g, layout(), 2);
    crate::record::lemma_u32_offset(13, 3);
    crate::record::lemma_numbers_written(g, layout(), 3);
    crate::record::lemma_u32_offset(13, 4);
    crate::record::lemma_numbers_written(g, layout(), 4);
    crate::record::lemma_u32_offset(13, 5);
    crate::record::lemma_numbers_written(g, layout(), 5);
    crate::record::lemma_u32_offset(13, 6);
    crate::record::lemma_numbers_written(g, layout(), 6);
    crate::record::lemma_u32_offset(13, 7);
    crate::record::lemma_numbers_written(g, layout(), 7);
    crate::record::lemma_u32_offset(13, 8);
    crate::record::lemma_numbers_written(g, layout(), 8);
    crate::record::lemma_u32_offset(13, 9);
    crate::record::lemma_numbers_written(g, layout(), 9);
    crate::record::lemma_u32_offset(13, 10);
    crate::record::lemma_numbers_written(g, layout(), 10);
    crate::record::lemma_u32_offset(13, 11);
    crate::record::lemma_numbers_written(g, layout(), 11);
    crate::record::lemma_u32_offset(13, 12);
    crate::record::lemma_numbers_written(g, layout(), 12);
}

} // verus!
