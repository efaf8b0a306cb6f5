//! `OBJECT_MOTION_FROM_TO` (11): moves, turns, scales and morphs a node
//! from one state to another over time.
//!
//! Each part that changes is stored with its per-second change, `(to -
//! from) / run_time` in floating point; the stored changes are kept as they
//! are, and comparing them with the computed ones is left to the caller.
use vstd::prelude::*;
use crate::anim_def::{index_of, lemma_name_reread, name_at, AnimDef, AnimDefV};
use crate::error::Error;
use crate::flags::{bit, bit_exec, lemma_word4, word4, word4_exec};
use crate::float;
use crate::model::{vec3_is_zero, vec3_is_zero_exec, FloatFromTo, Vec3, Vec3FromTo};
use crate::record::{
    conforms_all, decode, decode_record, encode, encode_record, fields_view, get_u32,
    lemma_decode_encode, lemma_encode_size, size, w32, FieldV, Fld, Kind,
};

use crate::anim_def::{lemma_index_of_name_at};
use crate::record::{lemma_conforming_fields, lemma_encode_decode, lemma_decode_conforms};
use crate::model::{vec3_no_neg_zero};
verus! {

/// An `OBJECT_MOTION_FROM_TO` event.
#[derive(Debug)]
pub struct ObjectMotionFromTo<N> {
    pub name: N,
    pub run_time: u32,
    pub morph: Option<FloatFromTo>,
    pub translate: Option<Vec3FromTo>,
    pub rotate: Option<Vec3FromTo>,
    pub scale: Option<Vec3FromTo>,
}

impl DeepView for ObjectMotionFromTo<Vec<u8>> {
    type V = ObjectMotionFromTo<Seq<u8>>;

    open spec fn deep_view(&self) -> ObjectMotionFromTo<Seq<u8>> {
        ObjectMotionFromTo {
            name: self.name@,
            run_time: self.run_time,
            morph: self.morph,
            translate: self.translate,
            rotate: self.rotate,
            scale: self.scale,
        }
    }
}

/// Size of the record.
pub const SIZE: u32 = 132;

/// Flag bits.
pub const TRANSLATE: u32 = 0;

pub const ROTATE: u32 = 1;

pub const SCALE: u32 = 2;

pub const MORPH: u32 = 3;

/// Fields: flags, node index (four bytes), morph from, to and change;
/// translation, rotation and scale from, to and change; run time.
pub open spec fn layout() -> Seq<Kind> {
    Seq::new(33, |i: int| Kind::U32)
}

fn layout_exec() -> (r: Vec<Kind>)
    ensures
        r@ == layout(),
        size(layout()) == SIZE,
{
    let mut r: Vec<Kind> = Vec::new();
    let mut i: usize = 0;
    while i < 33
        invariant
            0 <= i <= 33,
            r@ == Seq::new(i as nat, |k: int| Kind::U32),
        decreases 33 - i,
    {
        r.push(Kind::U32);
        i = i + 1;
        proof {
            assert(r@ =~= Seq::new(i as nat, |k: int| Kind::U32));
        }
    }
    proof {
        reveal_with_fuel(size, 34);
    }
    r
}

/// The vector of fields `i` to `i + 2`.
pub open spec fn vec_at(f: Seq<FieldV>, i: int) -> Vec3 {
    Vec3 { x: w32(f, i), y: w32(f, i + 1), z: w32(f, i + 2) }
}

/// `x` lies in `0.0..=1.0`.
pub open spec fn unit(x: u32) -> bool {
    float::in_range(float::ZERO, x, float::ONE)
}

/// The morph: where set, from and to in `0.0..=1.0`; otherwise three zeros.
pub open spec fn morph_of(set: bool, m: FloatFromTo) -> Option<Option<FloatFromTo>> {
    if set {
        if unit(m.from) && unit(m.to) {
            Some(Some(m))
        } else {
            None
        }
    } else if float::is_zero(m.from) && float::is_zero(m.to) && float::is_zero(m.delta) {
        Some(None)
    } else {
        None
    }
}

/// A vector part: where set, any values; otherwise three zero vectors.
pub open spec fn part_of(set: bool, p: Vec3FromTo) -> Option<Option<Vec3FromTo>> {
    if set {
        Some(Some(p))
    } else if vec3_is_zero(p.from) && vec3_is_zero(p.to) && vec3_is_zero(p.delta) {
        Some(None)
    } else {
        None
    }
}

/// The event that the fields of a record describe, if they describe one:
/// a positive run time and only the four known flags.
pub open spec fn from_fields(ad: AnimDefV, f: Seq<FieldV>) -> Option<ObjectMotionFromTo<Seq<u8>>> {
    let fl = w32(f, 0);
    let run_time = w32(f, 32);
    if !float::lt(float::ZERO, run_time) || fl >= 16 {
        None
    } else {
        match (
            name_at(ad.nodes, w32(f, 1) as int),
            morph_of(bit(fl, MORPH), FloatFromTo { from: w32(f, 2), to: w32(f, 3), delta: w32(f, 4) }),
            part_of(bit(fl, TRANSLATE), Vec3FromTo { from: vec_at(f, 5), to: vec_at(f, 8), delta: vec_at(f, 11) }),
            part_of(bit(fl, ROTATE), Vec3FromTo { from: vec_at(f, 14), to: vec_at(f, 17), delta: vec_at(f, 20) }),
            part_of(bit(fl, SCALE), Vec3FromTo { from: vec_at(f, 23), to: vec_at(f, 26), delta: vec_at(f, 29) }),
        ) {
            (Some(name), Some(morph), Some(translate), Some(rotate), Some(scale)) => Some(
                ObjectMotionFromTo { name, run_time, morph, translate, rotate, scale },
            ),
            _ => None,
        }
    }
}

/// The stored morph.
pub open spec fn stored_morph(o: Option<FloatFromTo>) -> FloatFromTo {
    match o {
        Some(m) => m,
        None => FloatFromTo { from: 0, to: 0, delta: 0 },
    }
}

/// A stored vector part.
pub open spec fn stored_part(o: Option<Vec3FromTo>) -> Vec3FromTo {
    match o {
        Some(p) => p,
        None => Vec3FromTo {
            from: Vec3 { x: 0, y: 0, z: 0 },
            to: Vec3 { x: 0, y: 0, z: 0 },
            delta: Vec3 { x: 0, y: 0, z: 0 },
        },
    }
}

/// The fields of the record of an event, if it can be written.
pub open spec fn to_fields(ad: AnimDefV, v: ObjectMotionFromTo<Seq<u8>>) -> Option<Seq<FieldV>> {
    let m = stored_morph(v.morph);
    let t = stored_part(v.translate);
    let r = stored_part(v.rotate);
    let s = stored_part(v.scale);
    match index_of(ad.nodes, v.name) {
        Some(ni) => Some(
            seq![
                FieldV::U32(word4(v.translate is Some, v.rotate is Some, v.scale is Some, v.morph is Some)),
                FieldV::U32(ni as u32),
                FieldV::U32(m.from),
                FieldV::U32(m.to),
                FieldV::U32(m.delta),
                FieldV::U32(t.from.x),
                FieldV::U32(t.from.y),
                FieldV::U32(t.from.z),
                FieldV::U32(t.to.x),
                FieldV::U32(t.to.y),
                FieldV::U32(t.to.z),
                FieldV::U32(t.delta.x),
                FieldV::U32(t.delta.y),
                FieldV::U32(t.delta.z),
                FieldV::U32(r.from.x),
                FieldV::U32(r.from.y),
                FieldV::U32(r.from.z),
                FieldV::U32(r.to.x),
                FieldV::U32(r.to.y),
                FieldV::U32(r.to.z),
                FieldV::U32(r.delta.x),
                FieldV::U32(r.delta.y),
                FieldV::U32(r.delta.z),
                FieldV::U32(s.from.x),
                FieldV::U32(s.from.y),
                FieldV::U32(s.from.z),
                FieldV::U32(s.to.x),
                FieldV::U32(s.to.y),
                FieldV::U32(s.to.z),
                FieldV::U32(s.delta.x),
                FieldV::U32(s.delta.y),
                FieldV::U32(s.delta.z),
                FieldV::U32(v.run_time),
            ],
        ),
        None => None,
    }
}

/// The event that a record holds, if it holds one.
pub open spec fn parse(ad: AnimDefV, s: Seq<u8>) -> Option<ObjectMotionFromTo<Seq<u8>>> {
    if s.len() == SIZE {
        from_fields(ad, decode(layout(), s))
    } else {
        None
    }
}

/// The record of an event, if it can be written.
pub open spec fn serialize(ad: AnimDefV, v: ObjectMotionFromTo<Seq<u8>>) -> Option<Seq<u8>> {
    match to_fields(ad, v) {
        Some(f) => Some(encode(f)),
        None => None,
    }
}

fn morph_of_exec(set: bool, m: FloatFromTo) -> (r: Result<Option<FloatFromTo>, Error>)
    ensures
        match morph_of(set, m) {
            Some(o) => r == Ok::<Option<FloatFromTo>, Error>(o),
            None => r == Err::<Option<FloatFromTo>, Error>(Error::Invalid),
        },
{
    if set {
        if float::f32_in_range(float::ZERO, m.from, float::ONE) && float::f32_in_range(
            float::ZERO,
            m.to,
            float::ONE,
        ) {
            Ok(Some(m))
        } else {
            Err(Error::Invalid)
        }
    } else if float::f32_is_zero(m.from) && float::f32_is_zero(m.to) && float::f32_is_zero(m.delta) {
        Ok(None)
    } else {
        Err(Error::Invalid)
    }
}

fn part_of_exec(set: bool, p: Vec3FromTo) -> (r: Result<Option<Vec3FromTo>, Error>)
    ensures
        match part_of(set, p) {
            Some(o) => r == Ok::<Option<Vec3FromTo>, Error>(o),
            None => r == Err::<Option<Vec3FromTo>, Error>(Error::Invalid),
        },
{
    if set {
        Ok(Some(p))
    } else if vec3_is_zero_exec(p.from) && vec3_is_zero_exec(p.to) && vec3_is_zero_exec(p.delta) {
        Ok(None)
    } else {
        Err(Error::Invalid)
    }
}

fn vec_at_exec(f: &Vec<Fld>, i: usize) -> (r: Vec3)
    requires
        i < 64,
        i + 2 < f@.len(),
        fields_view(f@)[i as int] is U32,
        fields_view(f@)[i + 1] is U32,
        fields_view(f@)[i + 2] is U32,
    ensures
        r == vec_at(fields_view(f@), i as int),
{
    Vec3 { x: get_u32(f, i), y: get_u32(f, i + 1), z: get_u32(f, i + 2) }
}

/// Reads an `OBJECT_MOTION_FROM_TO` record.
pub fn read(data: &[u8], ad: &AnimDef) -> (r: Result<ObjectMotionFromTo<Vec<u8>>, Error>)
    ensures
        match parse(ad@, data@) {
            Some(v) => r matches Ok(x) && x.deep_view() == v,
            None => r == Err::<ObjectMotionFromTo<Vec<u8>>, Error>(Error::Invalid),
        },
{
    if data.len() != 132 {
        return Err(Error::Invalid);
    }
    let l = layout_exec();
    let f = decode_record(data, l.as_slice());
    let ghost fv = fields_view(f@);
    assert forall|i: int| 0 <= i < 33 implies fv[i] is U32 by {
        assert(crate::record::conforms(fv[i], layout()[i]));
    }
    let fl = get_u32(&f, 0);
    let run_time = get_u32(&f, 32);
    if !float::f32_lt(float::ZERO, run_time) || fl >= 16 {
        return Err(Error::Invalid);
    }
    let name = ad.node_from_index(get_u32(&f, 1))?;
    let morph = morph_of_exec(
        bit_exec(fl, MORPH),
        FloatFromTo { from: get_u32(&f, 2), to: get_u32(&f, 3), delta: get_u32(&f, 4) },
    )?;
    let translate = part_of_exec(
        bit_exec(fl, TRANSLATE),
        Vec3FromTo { from: vec_at_exec(&f, 5), to: vec_at_exec(&f, 8), delta: vec_at_exec(&f, 11) },
    )?;
    let rotate = part_of_exec(
        bit_exec(fl, ROTATE),
        Vec3FromTo { from: vec_at_exec(&f, 14), to: vec_at_exec(&f, 17), delta: vec_at_exec(&f, 20) },
    )?;
    let scale = part_of_exec(
        bit_exec(fl, SCALE),
        Vec3FromTo { from: vec_at_exec(&f, 23), to: vec_at_exec(&f, 26), delta: vec_at_exec(&f, 29) },
    )?;
    Ok(ObjectMotionFromTo { name, run_time, morph, translate, rotate, scale })
}

fn stored_morph_exec(o: Option<FloatFromTo>) -> (r: FloatFromTo)
    ensures
        r == stored_morph(o),
{
    match o {
        Some(m) => m,
        None => FloatFromTo { from: 0, to: 0, delta: 0 },
    }
}

fn stored_part_exec(o: Option<Vec3FromTo>) -> (r: Vec3FromTo)
    ensures
        r == stored_part(o),
{
    match o {
        Some(p) => p,
        None => Vec3FromTo {
            from: Vec3 { x: 0, y: 0, z: 0 },
            to: Vec3 { x: 0, y: 0, z: 0 },
            delta: Vec3 { x: 0, y: 0, z: 0 },
        },
    }
}

/// Writes an `OBJECT_MOTION_FROM_TO` record.
pub fn write(v: &ObjectMotionFromTo<Vec<u8>>, ad: &AnimDef, out: &mut Vec<u8>) -> (r: Result<
    (),
    Error,
>)
    ensures
        match serialize(ad@, v.deep_view()) {
            Some(b) => r is Ok && final(out)@ == old(out)@ + b,
            None => r == Err::<(), Error>(Error::Invalid) && final(out)@ == old(out)@,
        },
{
    let ni = ad.node_to_index(&v.name)?;
    let fl = word4_exec(v.translate.is_some(), v.rotate.is_some(), v.scale.is_some(), v.morph.is_some());
    let m = stored_morph_exec(v.morph);
    let t = stored_part_exec(v.translate);
    let r = stored_part_exec(v.rotate);
    let s = stored_part_exec(v.scale);
    let fs = vec![
        Fld::U32(fl),
        Fld::U32(ni as u32),
        Fld::U32(m.from),
        Fld::U32(m.to),
        Fld::U32(m.delta),
        Fld::U32(t.from.x),
        Fld::U32(t.from.y),
        Fld::U32(t.from.z),
        Fld::U32(t.to.x),
        Fld::U32(t.to.y),
        Fld::U32(t.to.z),
        Fld::U32(t.delta.x),
        Fld::U32(t.delta.y),
        Fld::U32(t.delta.z),
        Fld::U32(r.from.x),
        Fld::U32(r.from.y),
        Fld::U32(r.from.z),
        Fld::U32(r.to.x),
        Fld::U32(r.to.y),
        Fld::U32(r.to.z),
        Fld::U32(r.delta.x),
        Fld::U32(r.delta.y),
        Fld::U32(r.delta.z),
        Fld::U32(s.from.x),
        Fld::U32(s.from.y),
        Fld::U32(s.from.z),
        Fld::U32(s.to.x),
        Fld::U32(s.to.y),
        Fld::U32(s.to.z),
        Fld::U32(s.delta.x),
        Fld::U32(s.delta.y),
        Fld::U32(s.delta.z),
        Fld::U32(v.run_time),
    ];
    proof {
        assert(fields_view(fs@) =~= to_fields(ad@, v.deep_view()).unwrap());
    }
    encode_record(&fs, out);
    Ok(())
}

/// Writing an event that was read, then reading it again, gives the same
/// event.
#[verifier::spinoff_prover]
#[verifier::rlimit(60)]
pub proof fn lemma_reread(ad: AnimDefV, s: Seq<u8>)
    requires
        parse(ad, s) is Some,
    ensures
        serialize(ad, parse(ad, s).unwrap()) matches Some(b) && parse(ad, b) == parse(ad, s),
{
    let f = decode(layout(), s);
    lemma_name_reread(ad.nodes, w32(f, 1) as int);
    let v = parse(ad, s).unwrap();
    lemma_word4(v.translate is Some, v.rotate is Some, v.scale is Some, v.morph is Some);
    let g = to_fields(ad, v).unwrap();
    assert(g.len() == 33);
    assert(conforms_all(g, layout()));
    lemma_decode_encode(g, layout());
    lemma_encode_size(g, layout());
    reveal_with_fuel(size, 34);
}

/// A record that is written has the record's size.
pub proof fn lemma_written_size(ad: AnimDefV, v: ObjectMotionFromTo<Seq<u8>>)
    requires
        serialize(ad, v) is Some,
    ensures
        serialize(ad, v).unwrap().len() == SIZE,
{
    let g = to_fields(ad, v).unwrap();
    assert(conforms_all(g, layout()));
    lemma_encode_size(g, layout());
    reveal_with_fuel(size, 34);
}

/// The record is written back exactly as read: a part that is not set has no `-0.0`.
pub open spec fn exact_record(ad: AnimDefV, s: Seq<u8>) -> bool {
    let f = decode(layout(), s);
    let fl = w32(f, 0);
    &&& !bit(fl, MORPH) ==> w32(f, 2) != float::NEG_ZERO && w32(f, 3) != float::NEG_ZERO && w32(f, 4)
        != float::NEG_ZERO
    &&& !bit(fl, TRANSLATE) ==> vec3_no_neg_zero(vec_at(f, 5)) && vec3_no_neg_zero(vec_at(f, 8))
        && vec3_no_neg_zero(vec_at(f, 11))
    &&& !bit(fl, ROTATE) ==> vec3_no_neg_zero(vec_at(f, 14)) && vec3_no_neg_zero(vec_at(f, 17))
        && vec3_no_neg_zero(vec_at(f, 20))
    &&& !bit(fl, SCALE) ==> vec3_no_neg_zero(vec_at(f, 23)) && vec3_no_neg_zero(vec_at(f, 26))
        && vec3_no_neg_zero(vec_at(f, 29))
}

/// Writing the event of a record gives the record back, where the nodes of the
/// definition are distinct and the record is written back exactly.
pub proof fn lemma_exact(ad: AnimDefV, s: Seq<u8>)
    requires
        parse(ad, s) is Some,
        crate::anim_def::unique_names(ad.nodes),
        exact_record(ad, s),
    ensures
        serialize(ad, parse(ad, s).unwrap()) == Some(s),
{
    let f = decode(layout(), s);
    reveal_with_fuel(size, 34);
    lemma_decode_conforms(layout(), s);
    lemma_encode_decode(layout(), s);
    lemma_conforming_fields(f, layout());
    lemma_index_of_name_at(ad.nodes, w32(f, 1) as int);
    crate::flags::lemma_word4_rebuild(w32(f, 0));
    assert(to_fields(ad, parse(ad, s).unwrap()).unwrap() =~= f);
}

/// An event read from a record holds the record's numbers, little-endian:
/// its node is the one that the number at offset 4 refers to, its run time
/// the number at offset 128; its morph is present exactly where bit `MORPH`
/// of the flag word at offset 0 is set, and is then the three numbers
/// (from, to, change) at offset 8; its translation, rotation and scale are
/// present exactly where bits `TRANSLATE`, `ROTATE` and `SCALE` are set, and
/// are then the nine numbers (from, to and change, each a vector) at
/// offsets 20, 56 and 92.
#[verifier::rlimit(60)]
pub proof fn lemma_read_bytes(ad: AnimDefV, s: Seq<u8>)
    requires
        parse(ad, s) is Some,
    ensures
        ({
            let v = parse(ad, s).unwrap();
            let fl = crate::record::le32_at(s, 0);
            &&& name_at(ad.nodes, crate::record::le32_at(s, 4) as int) == Some(v.name)
            &&& v.run_time == crate::record::le32_at(s, 128)
            &&& (v.morph is Some) == bit(fl, MORPH)
            &&& v.morph matches Some(m) ==> m == FloatFromTo { from: crate::record::le32_at(s, 8), to: crate::record::le32_at(s, 12), delta: crate::record::le32_at(s, 16) }
            &&& (v.translate is Some) == bit(fl, TRANSLATE)
            &&& v.translate matches Some(p) ==> p == Vec3FromTo { from: Vec3 { x: crate::record::le32_at(s, 20), y: crate::record::le32_at(s, 24), z: crate::record::le32_at(s, 28) }, to: Vec3 { x: crate::record::le32_at(s, 32), y: crate::record::le32_at(s, 36), z: crate::record::le32_at(s, 40) }, delta: Vec3 { x: crate::record::le32_at(s, 44), y: crate::record::le32_at(s, 48), z: crate::record::le32_at(s, 52) } }
            &&& (v.rotate is Some) == bit(fl, ROTATE)
            &&& v.rotate matches Some(p) ==> p == Vec3FromTo { from: Vec3 { x: crate::record::le32_at(s, 56), y: crate::record::le32_at(s, 60), z: crate::record::le32_at(s, 64) }, to: Vec3 { x: crate::record::le32_at(s, 68), y: crate::record::le32_at(s, 72), z: crate::record::le32_at(s, 76) }, delta: Vec3 { x: crate::record::le32_at(s, 80), y: crate::record::le32_at(s, 84), z: crate::record::le32_at(s, 88) } }
            &&& (v.scale is Some) == bit(fl, SCALE)
            &&& v.scale matches Some(p) ==> p == Vec3FromTo { from: Vec3 { x: crate::record::le32_at(s, 92), y: crate::record::le32_at(s, 96), z: crate::record::le32_at(s, 100) }, to: Vec3 { x: crate::record::le32_at(s, 104), y: crate::record::le32_at(s, 108), z: crate::record::le32_at(s, 112) }, delta: Vec3 { x: crate::record::le32_at(s, 116), y: crate::record::le32_at(s, 120), z: crate::record::le32_at(s, 124) } }
        }),
{
    crate::record::lemma_u32_size(33);
    crate::record::lemma_u32_offset(33, 0);
    crate::record::lemma_numbers_at(layout(), s, 0);
    crate::record::lemma_u32_offset(33, 1);
    crate::record::lemma_numbers_at(layout(), s, 1);
    crate::record::lemma_u32_offset(33, 2);
    crate::record::lemma_numbers_at(layout(), s, 2);
    crate::record::lemma_u32_offset(33, 3);
    crate::record::lemma_numbers_at(layout(), s, 3);
    crate::record::lemma_u32_offset(33, 4);
    crate::record::lemma_numbers_at(layout(), s, 4);
    crate::record::lemma_u32_offset(33, 5);
    crate::record::lemma_numbers_at(layout(), s, 5);
    crate::record::lemma_u32_offset(33, 6);
    crate::record::lemma_numbers_at(layout(), s, 6);
    crate::record::lemma_u32_offset(33, 7);
    crate::record::lemma_numbers_at(layout(), s, 7);
    crate::record::lemma_u32_offset(33, 8);
    crate::record::lemma_numbers_at(layout(), s, 8);
    crate::record::lemma_u32_offset(33, 9);
    crate::record::lemma_numbers_at(layout(), s, 9);
    crate::record::lemma_u32_offset(33, 10);
    crate::record::lemma_numbers_at(layout(), s, 10);
    crate::record::lemma_u32_offset(33, 11);
    crate::record::lemma_numbers_at(layout(), s, 11);
    crate::record::lemma_u32_offset(33, 12);
    crate::record::lemma_numbers_at(layout(), s, 12);
    crate::record::lemma_u32_offset(33, 13);
    crate::record::lemma_numbers_at(layout(), s, 13);
    crate::record::lemma_u32_offset(33, 14);
    crate::record::lemma_numbers_at(layout(), s, 14);
    crate::record::lemma_u32_offset(33, 15);
    crate::record::lemma_numbers_at(layout(), s, 15);
    crate::record::lemma_u32_offset(33, 16);
    crate::record::lemma_numbers_at(layout(), s, 16);
    crate::record::lemma_u32_offset(33, 17);
    crate::record::lemma_numbers_at(layout(), s, 17);
    crate::record::lemma_u32_offset(33, 18);
    crate::record::lemma_numbers_at(layout(), s, 18);
    crate::record::lemma_u32_offset(33, 19);
    crate::record::lemma_numbers_at(layout(), s, 19);
    crate::record::lemma_u32_offset(33, 20);
    crate::record::lemma_numbers_at(layout(), s, 20);
    crate::record::lemma_u32_offset(33, 21);
    crate::record::lemma_numbers_at(layout(), s, 21);
    crate::record::lemma_u32_offset(33, 22);
    crate::record::lemma_numbers_at(layout(), s, 22);
    crate::record::lemma_u32_offset(33, 23);
    crate::record::lemma_numbers_at(layout(), s, 23);
    crate::record::lemma_u32_offset(33, 24);
    crate::record::lemma_numbers_at(layout(), s, 24);
    crate::record::lemma_u32_offset(33, 25);
    crate::record::lemma_numbers_at(layout(), s, 25);
    crate::record::lemma_u32_offset(33, 26);
    crate::record::lemma_numbers_at(layout(), s, 26);
    crate::record::lemma_u32_offset(33, 27);
    crate::record::lemma_numbers_at(layout(), s, 27);
    crate::record::lemma_u32_offset(33, 28);
    crate::record::lemma_numbers_at(layout(), s, 28);
    crate::record::lemma_u32_offset(33, 29);
    crate::record::lemma_numbers_at(layout(), s, 29);
    crate::record::lemma_u32_offset(33, 30);
    crate::record::lemma_numbers_at(layout(), s, 30);
    crate::record::lemma_u32_offset(33, 31);
    crate::record::lemma_numbers_at(layout(), s, 31);
    crate::record::lemma_u32_offset(33, 32);
    crate::record::lemma_numbers_at(layout(), s, 32);
}

/// The record written for an event holds, little-endian, at offset 4 a
/// number that refers to its node, its run time at offset 128, a flag word
/// at offset 0 whose bits `MORPH`, `TRANSLATE`, `ROTATE` and `SCALE` are set
/// exactly where those parts are present, and the parts at offsets 8, 20, 56
/// and 92 (zeros where absent).
#[verifier::rlimit(60)]
pub proof fn lemma_written_bytes(ad: AnimDefV, v: ObjectMotionFromTo<Seq<u8>>)
    requires
        serialize(ad, v) is Some,
    ensures
        ({
            let b = serialize(ad, v).unwrap();
            let fl = crate::record::le32_at(b, 0);
            &&& name_at(ad.nodes, crate::record::le32_at(b, 4) as int) == Some(v.name)
            &&& crate::record::le32_at(b, 128) == v.run_time
            &&& bit(fl, MORPH) == (v.morph is Some)
            &&& stored_morph(v.morph) == FloatFromTo { from: crate::record::le32_at(b, 8), to: crate::record::le32_at(b, 12), delta: crate::record::le32_at(b, 16) }
            &&& bit(fl, TRANSLATE) == (v.translate is Some)
            &&& stored_part(v.translate) == Vec3FromTo { from: Vec3 { x: crate::record::le32_at(b, 20), y: crate::record::le32_at(b, 24), z: crate::record::le32_at(b, 28) }, to: Vec3 { x: crate::record::le32_at(b, 32), y: crate::record::le32_at(b, 36), z: crate::record::le32_at(b, 40) }, delta: Vec3 { x: crate::record::le32_at(b, 44), y: crate::record::le32_at(b, 48), z: crate::record::le32_at(b, 52) } }
            &&& bit(fl, ROTATE) == (v.rotate is Some)
            &&& stored_part(v.rotate) == Vec3FromTo { from: Vec3 { x: crate::record::le32_at(b, 56), y: crate::record::le32_at(b, 60), z: crate::record::le32_at(b, 64) }, to: Vec3 { x: crate::record::le32_at(b, 68), y: crate::record::le32_at(b, 72), z: crate::record::le32_at(b, 76) }, delta: Vec3 { x: crate::record::le32_at(b, 80), y: crate::record::le32_at(b, 84), z: crate::record::le32_at(b, 88) } }
            &&& bit(fl, SCALE) == (v.scale is Some)
            &&& stored_part(v.scale) == Vec3FromTo { from: Vec3 { x: crate::record::le32_at(b, 92), y: crate::record::le32_at(b, 96), z: crate::record::le32_at(b, 100) }, to: Vec3 { x: crate::record::le32_at(b, 104), y: crate::record::le32_at(b, 108), z: crate::record::le32_at(b, 112) }, delta: Vec3 { x: crate::record::le32_at(b, 116), y: crate::record::le32_at(b, 120), z: crate::record::le32_at(b, 124) } }
        }),
{
    let g = to_fields(ad, v).unwrap();
    assert(conforms_all(g, layout())) by {
        assert forall|k: int| 0 <= k < g.len() implies #[trigger] crate::record::conforms(
            g[k],
            layout()[k],
        ) by {}
    }
    crate::anim_def::lemma_name_at_index_of(ad.nodes, v.name);
    crate::flags::lemma_word4(v.translate is Some, v.rotate is Some, v.scale is Some, v.morph is Some);
    crate::record::lemma_u32_offset(33, 0);
    crate::record::lemma_numbers_written(g, layout(), 0);
    crate::record::lemma_u32_offset(33, 1);
    crate::record::lemma_numbers_written(g, layout(), 1);
    crate::record::lemma_u32_offset(33, 2);
    crate::record::lemma_numbers_written(g, layout(), 2);
    crate::record::lemma_u32_offset(33, 3);
    crate::record::lemma_numbers_written(g, layout(), 3);
    crate::record::lemma_u32_offset(33, 4);
    crate::record::lemma_numbers_written(g, layout(), 4);
    crate::record::lemma_u32_offset(33, 5);
    crate::record::lemma_numbers_written(g, layout(), 5);
    crate::record::lemma_u32_offset(33, 6);
    crate::record::lemma_numbers_written(g, layout(), 6);
    crate::record::lemma_u32_offset(33, 7);
    crate::record::lemma_numbers_written(g, layout(), 7);
    crate::record::lemma_u32_offset(33, 8);
    crate::record::lemma_numbers_written(g, layout(), 8);
    crate::record::lemma_u32_offset(33, 9);
    crate::record::lemma_numbers_written(g, layout(), 9);
    crate::record::lemma_u32_offset(33, 10);
    crate::record::lemma_numbers_written(g, layout(), 10);
    crate::record::lemma_u32_offset(33, 11);
    crate::record::lemma_numbers_written(g, layout(), 11);
    crate::record::lemma_u32_offset(33, 12);
    crate::record::lemma_numbers_written(g, layout(), 12);
    crate::record::lemma_u32_offset(33, 13);
    crate::record::lemma_numbers_written(g, layout(), 13);
    crate::record::lemma_u32_offset(33, 14);
    crate::record::lemma_numbers_written(g, layout(), 14);
    crate::record::lemma_u32_offset(33, 15);
    crate::record::lemma_numbers_written(g, layout(), 15);
    crate::record::lemma_u32_offset(33, 16);
    crate::record::lemma_numbers_written(g, layout(), 16);
    crate::record::lemma_u32_offset(33, 17);
    crate::record::lemma_numbers_written(g, layout(), 17);
    crate::record::lemma_u32_offset(33, 18);
    crate::record::lemma_numbers_written(g, layout(), 18);
    crate::record::lemma_u32_offset(33, 19);
    crate::record::lemma_numbers_written(g, layout(), 19);
    crate::record::lemma_u32_offset(33, 20);
    crate::record::lemma_numbers_written(g, layout(), 20);
    crate::record::lemma_u32_offset(33, 21);
    crate::record::lemma_numbers_written(g, layout(), 21);
    crate::record::lemma_u32_offset(33, 22);
    crate::record::lemma_numbers_written(g, layout(), 22);
    crate::record::lemma_u32_offset(33, 23);
    crate::record::lemma_numbers_written(g, layout(), 23);
    crate::record::lemma_u32_offset(33, 24);
    crate::record::lemma_numbers_written(g, layout(), 24);
    crate::record::lemma_u32_offset(33, 25);
    crate::record::lemma_numbers_written(g, layout(), 25);
    crate::record::lemma_u32_offset(33, 26);
    crate::record::lemma_numbers_written(g, layout(), 26);
    crate::record::lemma_u32_offset(33, 27);
    crate::record::lemma_numbers_written(g, layout(), 27);
    crate::record::lemma_u32_offset(33, 28);
    crate::record::lemma_numbers_written(g, layout(), 28);
    crate::record::lemma_u32_offset(33, 29);
    crate::record::lemma_numbers_written(g, layout(), 29);
    crate::record::lemma_u32_offset(33, 30);
    crate::record::lemma_numbers_written(g, layout(), 30);
    crate::record::lemma_u32_offset(33, 31);
    crate::record::lemma_numbers_written(g, layout(), 31);
    crate::record::lemma_u32_offset(33, 32);
    crate::record::lemma_numbers_written(g, layout(), 32);
}

} // verus!
