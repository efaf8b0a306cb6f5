//! `CAMERA_FROM_TO` (21): changes some of the clip planes, level of
//! detail, field of view and zoom of a camera node over time.
//!
//! Each value that changes is stored with its per-second change, which is
//! `(to - from) / run_time` in floating point; the record's stored change is
//! kept as it is, and comparing it with the computed one is left to the
//! caller. A value that does not change is stored as three zeros.
use vstd::prelude::*;
use crate::anim_def::{index_of, lemma_name_reread, name_at, AnimDef, AnimDefV};
use crate::error::Error;
use crate::events::camera_state::{lemma_word, word, word_exec};
use crate::flags::{bit, bit_exec};
use crate::float;
use crate::model::FloatFromTo;
use crate::record::{
    conforms_all, decode, decode_record, encode, encode_record, fields_view, get_u32,
    lemma_decode_encode, lemma_encode_size, size, w32, FieldV, Fld, Kind,
};

use crate::anim_def::{lemma_index_of_name_at};
use crate::record::{lemma_conforming_fields, lemma_encode_decode, lemma_decode_conforms};
verus! {

/// A `CAMERA_FROM_TO` event: each value changes where present.
#[derive(Debug)]
pub struct CameraFromTo<N> {
    pub name: N,
    pub clip_near: Option<FloatFromTo>,
    pub clip_far: Option<FloatFromTo>,
    pub lod_multiplier: Option<FloatFromTo>,
    pub fov_h: Option<FloatFromTo>,
    pub fov_v: Option<FloatFromTo>,
    pub zoom_h: Option<FloatFromTo>,
    pub zoom_v: Option<FloatFromTo>,
    pub run_time: u32,
}

impl DeepView for CameraFromTo<Vec<u8>> {
    type V = CameraFromTo<Seq<u8>>;

    open spec fn deep_view(&self) -> CameraFromTo<Seq<u8>> {
        CameraFromTo {
            name: self.name@,
            clip_near: self.clip_near,
            clip_far: self.clip_far,
            lod_multiplier: self.lod_multiplier,
            fov_h: self.fov_h,
            fov_v: self.fov_v,
            zoom_h: self.zoom_h,
            zoom_v: self.zoom_v,
            run_time: self.run_time,
        }
    }
}

/// Size of the record.
pub const SIZE: u32 = 96;

/// Fields: flags, node index (four bytes), seven times from, to and change,
/// run time.
pub open spec fn layout() -> Seq<Kind> {
    Seq::new(24, |i: int| Kind::U32)
}

fn layout_exec() -> (r: Vec<Kind>)
    ensures
        r@ == layout(),
        size(layout()) == SIZE,
{
    let mut r: Vec<Kind> = Vec::new();
    let mut i: usize = 0;
    while i < 24
        invariant
            0 <= i <= 24,
            r@ == Seq::new(i as nat, |k: int| Kind::U32),
        decreases 24 - i,
    {
        r.push(Kind::U32);
        i = i + 1;
        proof {
            assert(r@ =~= Seq::new(i as nat, |k: int| Kind::U32));
        }
    }
    proof {
        reveal_with_fuel(size, 25);
    }
    r
}

/// One value, from fields `i` to `i + 2`: present where its flag is set,
/// otherwise stored as three zeros.
pub open spec fn value_of(set: bool, f: Seq<FieldV>, i: int) -> Option<Option<FloatFromTo>> {
    let v = FloatFromTo { from: w32(f, i), to: w32(f, i + 1), delta: w32(f, i + 2) };
    if set {
        Some(Some(v))
    } else if float::is_zero(v.from) && float::is_zero(v.to) && float::is_zero(v.delta) {
        Some(None)
    } else {
        None
    }
}

/// The stored value of an optional value.
pub open spec fn stored(o: Option<FloatFromTo>) -> FloatFromTo {
    match o {
        Some(v) => v,
        None => FloatFromTo { from: 0, to: 0, delta: 0 },
    }
}

/// The event that the fields of a record describe, if they describe one:
/// a positive run time, only the seven known flags, and zeros for each value
/// that is not set.
pub open spec fn from_fields(ad: AnimDefV, f: Seq<FieldV>) -> Option<CameraFromTo<Seq<u8>>> {
    let fl = w32(f, 0);
    let run_time = w32(f, 23);
    if !float::lt(float::ZERO, run_time) || fl >= 128 {
        None
    } else {
        match (
            name_at(ad.nodes, w32(f, 1) as int),
            value_of(bit(fl, 0), f, 2),
            value_of(bit(fl, 1), f, 5),
            value_of(bit(fl, 2), f, 8),
            value_of(bit(fl, 3), f, 11),
            value_of(bit(fl, 4), f, 14),
            value_of(bit(fl, 5), f, 17),
            value_of(bit(fl, 6), f, 20),
        ) {
            (
                Some(name),
                Some(clip_near),
                Some(clip_far),
                Some(lod_multiplier),
                Some(fov_h),
                Some(fov_v),
                Some(zoom_h),
                Some(zoom_v),
            ) => Some(
                CameraFromTo {
                    name,
                    clip_near,
                    clip_far,
                    lod_multiplier,
                    fov_h,
                    fov_v,
                    zoom_h,
                    zoom_v,
                    run_time,
                },
            ),
            _ => None,
        }
    }
}

/// The fields of the record of an event, if it can be written.
pub open spec fn to_fields(ad: AnimDefV, v: CameraFromTo<Seq<u8>>) -> Option<Seq<FieldV>> {
    match index_of(ad.nodes, v.name) {
        Some(ni) => Some(
            seq![
                FieldV::U32(
                    word(
                        v.clip_near is Some,
                        v.clip_far is Some,
                        v.lod_multiplier is Some,
                        v.fov_h is Some,
                        v.fov_v is Some,
                        v.zoom_h is Some,
                        v.zoom_v is Some,
                    ),
                ),
                FieldV::U32(ni as u32),
                FieldV::U32(stored(v.clip_near).from),
                FieldV::U32(stored(v.clip_near).to),
                FieldV::U32(stored(v.clip_near).delta),
                FieldV::U32(stored(v.clip_far).from),
                FieldV::U32(stored(v.clip_far).to),
                FieldV::U32(stored(v.clip_far).delta),
                FieldV::U32(stored(v.lod_multiplier).from),
                FieldV::U32(stored(v.lod_multiplier).to),
                FieldV::U32(stored(v.lod_multiplier).delta),
                FieldV::U32(stored(v.fov_h).from),
                FieldV::U32(stored(v.fov_h).to),
                FieldV::U32(stored(v.fov_h).delta),
                FieldV::U32(stored(v.fov_v).from),
                FieldV::U32(stored(v.fov_v).to),
                FieldV::U32(stored(v.fov_v).delta),
                FieldV::U32(stored(v.zoom_h).from),
                FieldV::U32(stored(v.zoom_h).to),
                FieldV::U32(stored(v.zoom_h).delta),
                FieldV::U32(stored(v.zoom_v).from),
                FieldV::U32(stored(v.zoom_v).to),
                FieldV::U32(stored(v.zoom_v).delta),
                FieldV::U32(v.run_time),
            ],
        ),
        None => None,
    }
}

/// The event that a record holds, if it holds one.
pub open spec fn parse(ad: AnimDefV, s: Seq<u8>) -> Option<CameraFromTo<Seq<u8>>> {
    if s.len() == SIZE {
        from_fields(ad, decode(layout(), s))
    } else {
        None
    }
}

/// The record of an event, if it can be written.
pub open spec fn serialize(ad: AnimDefV, v: CameraFromTo<Seq<u8>>) -> Option<Seq<u8>> {
    match to_fields(ad, v) {
        Some(f) => Some(encode(f)),
        None => None,
    }
}

fn value_of_exec(set: bool, from: u32, to: u32, delta: u32) -> (r: Result<Option<FloatFromTo>, Error>)
    ensures
        match value_of(
            set,
            seq![FieldV::U32(from), FieldV::U32(to), FieldV::U32(delta)],
            0,
        ) {
            Some(o) => r == Ok::<Option<FloatFromTo>, Error>(o),
            None => r == Err::<Option<FloatFromTo>, Error>(Error::Invalid),
        },
{
    if set {
        Ok(Some(FloatFromTo { from, to, delta }))
    } else if float::f32_is_zero(from) && float::f32_is_zero(to) && float::f32_is_zero(delta) {
        Ok(None)
    } else {
        Err(Error::Invalid)
    }
}

/// `value_of` depends on the three fields only.
proof fn lemma_value_of(set: bool, f: Seq<FieldV>, i: int)
    ensures
        value_of(set, f, i) == value_of(
            set,
            seq![FieldV::U32(w32(f, i)), FieldV::U32(w32(f, i + 1)), FieldV::U32(w32(f, i + 2))],
            0,
        ),
{
}

/// Reads a `CAMERA_FROM_TO` record.
pub fn read(data: &[u8], ad: &AnimDef) -> (r: Result<CameraFromTo<Vec<u8>>, Error>)
    ensures
        match parse(ad@, data@) {
            Some(v) => r matches Ok(x) && x.deep_view() == v,
            None => r == Err::<CameraFromTo<Vec<u8>>, Error>(Error::Invalid),
        },
{
    if data.len() != 96 {
        return Err(Error::Invalid);
    }
    let l = layout_exec();
    let f = decode_record(data, l.as_slice());
    let ghost fv = fields_view(f@);
    assert forall|i: int| 0 <= i < 24 implies fv[i] is U32 by {
        assert(crate::record::conforms(fv[i], layout()[i]));
    }
    proof {
        lemma_value_of(bit(w32(fv, 0), 0), fv, 2);
        lemma_value_of(bit(w32(fv, 0), 1), fv, 5);
        lemma_value_of(bit(w32(fv, 0), 2), fv, 8);
        lemma_value_of(bit(w32(fv, 0), 3), fv, 11);
        lemma_value_of(bit(w32(fv, 0), 4), fv, 14);
        lemma_value_of(bit(w32(fv, 0), 5), fv, 17);
        lemma_value_of(bit(w32(fv, 0), 6), fv, 20);
    }
    let fl = get_u32(&f, 0);
    let run_time = get_u32(&f, 23);
    if !float::f32_lt(float::ZERO, run_time) || fl >= 128 {
        return Err(Error::Invalid);
    }
    let name = ad.node_from_index(get_u32(&f, 1))?;
    let clip_near = value_of_exec(bit_exec(fl, 0), get_u32(&f, 2), get_u32(&f, 3), get_u32(&f, 4))?;
    let clip_far = value_of_exec(bit_exec(fl, 1), get_u32(&f, 5), get_u32(&f, 6), get_u32(&f, 7))?;
    let lod_multiplier = value_of_exec(
        bit_exec(fl, 2),
        get_u32(&f, 8),
        get_u32(&f, 9),
        get_u32(&f, 10),
    )?;
    let fov_h = value_of_exec(bit_exec(fl, 3), get_u32(&f, 11), get_u32(&f, 12), get_u32(&f, 13))?;
    let fov_v = value_of_exec(bit_exec(fl, 4), get_u32(&f, 14), get_u32(&f, 15), get_u32(&f, 16))?;
    let zoom_h = value_of_exec(bit_exec(fl, 5), get_u32(&f, 17), get_u32(&f, 18), get_u32(&f, 19))?;
    let zoom_v = value_of_exec(bit_exec(fl, 6), get_u32(&f, 20), get_u32(&f, 21), get_u32(&f, 22))?;
    Ok(
        CameraFromTo {
            name,
            clip_near,
            clip_far,
            lod_multiplier,
            fov_h,
            fov_v,
            zoom_h,
            zoom_v,
            run_time,
        },
    )
}

fn stored_exec(o: Option<FloatFromTo>) -> (r: FloatFromTo)
    ensures
        r == stored(o),
{
    match o {
        Some(v) => v,
        None => FloatFromTo { from: 0, to: 0, delta: 0 },
    }
}

/// Writes a `CAMERA_FROM_TO` record.
pub fn write(v: &CameraFromTo<Vec<u8>>, ad: &AnimDef, out: &mut Vec<u8>) -> (r: Result<(), Error>)
    ensures
        match serialize(ad@, v.deep_view()) {
            Some(b) => r is Ok && final(out)@ == old(out)@ + b,
            None => r == Err::<(), Error>(Error::Invalid) && final(out)@ == old(out)@,
        },
{
    let ni = ad.node_to_index(&v.name)?;
    let fl = word_exec(
        v.clip_near.is_some(),
        v.clip_far.is_some(),
        v.lod_multiplier.is_some(),
        v.fov_h.is_some(),
        v.fov_v.is_some(),
        v.zoom_h.is_some(),
        v.zoom_v.is_some(),
    );
    let s0 = stored_exec(v.clip_near);
    let s1 = stored_exec(v.clip_far);
    let s2 = stored_exec(v.lod_multiplier);
    let s3 = stored_exec(v.fov_h);
    let s4 = stored_exec(v.fov_v);
    let s5 = stored_exec(v.zoom_h);
    let s6 = stored_exec(v.zoom_v);
    let fs = vec![
        Fld::U32(fl),
        Fld::U32(ni as u32),
        Fld::U32(s0.from),
        Fld::U32(s0.to),
        Fld::U32(s0.delta),
        Fld::U32(s1.from),
        Fld::U32(s1.to),
        Fld::U32(s1.delta),
        Fld::U32(s2.from),
        Fld::U32(s2.to),
        Fld::U32(s2.delta),
        Fld::U32(s3.from),
        Fld::U32(s3.to),
        Fld::U32(s3.delta),
        Fld::U32(s4.from),
        Fld::U32(s4.to),
        Fld::U32(s4.delta),
        Fld::U32(s5.from),
        Fld::U32(s5.to),
        Fld::U32(s5.delta),
        Fld::U32(s6.from),
        Fld::U32(s6.to),
        Fld::U32(s6.delta),
        Fld::U32(v.run_time),
    ];
    proof {
        assert(fields_view(fs@) =~= to_fields(ad@, v.deep_view()).unwrap());
    }
    encode_record(&fs, out);
    Ok(())
}

/// Writing an event that was read, then reading it again, gives the same
/// event.
#[verifier::spinoff_prover]
#[verifier::rlimit(60)]
pub proof fn lemma_reread(ad: AnimDefV, s: Seq<u8>)
    requires
        parse(ad, s) is Some,
    ensures
        serialize(ad, parse(ad, s).unwrap()) matches Some(b) && parse(ad, b) == parse(ad, s),
{
    let f = decode(layout(), s);
    lemma_name_reread(ad.nodes, w32(f, 1) as int);
    let v = parse(ad, s).unwrap();
    lemma_word(
        v.clip_near is Some,
        v.clip_far is Some,
        v.lod_multiplier is Some,
        v.fov_h is Some,
        v.fov_v is Some,
        v.zoom_h is Some,
        v.zoom_v is Some,
    );
    let g = to_fields(ad, v).unwrap();
    assert(g.len() == 24);
    assert forall|k: int| 0 <= k < g.len() implies crate::record::conforms(
        #[trigger] g[k],
        layout()[k],
    ) by {}
    assert(conforms_all(g, layout()));
    lemma_decode_encode(g, layout());
    lemma_encode_size(g, layout());
    reveal_with_fuel(size, 25);
}

/// A record that is written has the record's size.
pub proof fn lemma_written_size(ad: AnimDefV, v: CameraFromTo<Seq<u8>>)
    requires
        serialize(ad, v) is Some,
    ensures
        serialize(ad, v).unwrap().len() == SIZE,
{
    let g = to_fields(ad, v).unwrap();
    assert(conforms_all(g, layout()));
    lemma_encode_size(g, layout());
    reveal_with_fuel(size, 25);
}

/// The record is written back exactly as read: a value that is not set has no `-0.0`.
pub open spec fn exact_record(ad: AnimDefV, s: Seq<u8>) -> bool {
    let f = decode(layout(), s);
    &&& bit(w32(f, 0), 0) || (w32(f, 2) != float::NEG_ZERO && w32(f, 3) != float::NEG_ZERO
        && w32(f, 4) != float::NEG_ZERO)
    &&& bit(w32(f, 0), 1) || (w32(f, 5) != float::NEG_ZERO && w32(f, 6) != float::NEG_ZERO
        && w32(f, 7) != float::NEG_ZERO)
    &&& bit(w32(f, 0), 2) || (w32(f, 8) != float::NEG_ZERO && w32(f, 9) != float::NEG_ZERO
        && w32(f, 10) != float::NEG_ZERO)
    &&& bit(w32(f, 0), 3) || (w32(f, 11) != float::NEG_ZERO && w32(f, 12) != float::NEG_ZERO
        && w32(f, 13) != float::NEG_ZERO)
    &&& bit(w32(f, 0), 4) || (w32(f, 14) != float::NEG_ZERO && w32(f, 15) != float::NEG_ZERO
        && w32(f, 16) != float::NEG_ZERO)
    &&& bit(w32(f, 0), 5) || (w32(f, 17) != float::NEG_ZERO && w32(f, 18) != float::NEG_ZERO
        && w32(f, 19) != float::NEG_ZERO)
    &&& bit(w32(f, 0), 6) || (w32(f, 20) != float::NEG_ZERO && w32(f, 21) != float::NEG_ZERO
        && w32(f, 22) != float::NEG_ZERO)
}

/// Writing the event of a record gives the record back, where the nodes of the
/// definition are distinct and the record is written back exactly.
pub proof fn lemma_exact(ad: AnimDefV, s: Seq<u8>)
    requires
        parse(ad, s) is Some,
        crate::anim_def::unique_names(ad.nodes),
        exact_record(ad, s),
    ensures
        serialize(ad, parse(ad, s).unwrap()) == Some(s),
{
    let f = decode(layout(), s);
    reveal_with_fuel(size, 25);
    lemma_decode_conforms(layout(), s);
    lemma_encode_decode(layout(), s);
    lemma_conforming_fields(f, layout());
    lemma_index_of_name_at(ad.nodes, w32(f, 1) as int);
    crate::events::camera_state::lemma_word_rebuild(w32(f, 0));
    assert(to_fields(ad, parse(ad, s).unwrap()).unwrap() =~= f);
}

/// An event read from a record holds the record's numbers, little-endian:
/// its node is the one that the number at offset 4 refers to, its run time
/// the number at offset 92, and each of its seven values, in order, is
/// present exactly where its bit (0 to 6) of the flag word at offset 0 is
/// set, and is then the three numbers (from, to, change) at offset
/// `8 + 12 * bit`.
#[verifier::rlimit(40)]
pub proof fn lemma_read_bytes(ad: AnimDefV, s: Seq<u8>)
    requires
        parse(ad, s) is Some,
    ensures
        ({
            let v = parse(ad, s).unwrap();
            let fl = crate::record::le32_at(s, 0);
            &&& name_at(ad.nodes, crate::record::le32_at(s, 4) as int) == Some(v.name)
            &&& v.run_time == crate::record::le32_at(s, 92)
            &&& (v.clip_near is Some) == bit(fl, 0)
            &&& v.clip_near matches Some(x) ==> x == FloatFromTo { from: crate::record::le32_at(s, 8), to: crate::record::le32_at(s, 12), delta: crate::record::le32_at(s, 16) }
            &&& (v.clip_far is Some) == bit(fl, 1)
            &&& v.clip_far matches Some(x) ==> x == FloatFromTo { from: crate::record::le32_at(s, 20), to: crate::record::le32_at(s, 24), delta: crate::record::le32_at(s, 28) }
            &&& (v.lod_multiplier is Some) == bit(fl, 2)
            &&& v.lod_multiplier matches Some(x) ==> x == FloatFromTo { from: crate::record::le32_at(s, 32), to: crate::record::le32_at(s, 36), delta: crate::record::le32_at(s, 40) }
            &&& (v.fov_h is Some) == bit(fl, 3)
            &&& v.fov_h matches Some(x) ==> x == FloatFromTo { from: crate::record::le32_at(s, 44), to: crate::record::le32_at(s, 48), delta: crate::record::le32_at(s, 52) }
            &&& (v.fov_v is Some) == bit(fl, 4)
            &&& v.fov_v matches Some(x) ==> x == FloatFromTo { from: crate::record::le32_at(s, 56), to: crate::record::le32_at(s, 60), delta: crate::record::le32_at(s, 64) }
            &&& (v.zoom_h is Some) == bit(fl, 5)
            &&& v.zoom_h matches Some(x) ==> x == FloatFromTo { from: crate::record::le32_at(s, 68), to: crate::record::le32_at(s, 72), delta: crate::record::le32_at(s, 76) }
            &&& (v.zoom_v is Some) == bit(fl, 6)
            &&& v.zoom_v matches Some(x) ==> x == FloatFromTo { from: crate::record::le32_at(s, 80), to: crate::record::le32_at(s, 84), delta: crate::record::le32_at(s, 88) }
        }),
{
    crate::record::lemma_u32_size(24);
    crate::record::lemma_u32_offset(24, 0);
    crate::record::lemma_numbers_at(layout(), s, 0);
    crate::record::lemma_u32_offset(24, 1);
    crate::record::lemma_numbers_at(layout(), s, 1);
    crate::record::lemma_u32_offset(24, 2);
    crate::record::lemma_numbers_at(layout(), s, 2);
    crate::record::lemma_u32_offset(24, 3);
    crate::record::lemma_numbers_at(layout(), s, 3);
    crate::record::lemma_u32_offset(24, 4);
    crate::record::lemma_numbers_at(layout(), s, 4);
    crate::record::lemma_u32_offset(24, 5);
    crate::record::lemma_numbers_at(layout(), s, 5);
    crate::record::lemma_u32_offset(24, 6);
    crate::record::lemma_numbers_at(layout(), s, 6);
    crate::record::lemma_u32_offset(24, 7);
    crate::record::lemma_numbers_at(layout(), s, 7);
    crate::record::lemma_u32_offset(24, 8);
    crate::record::lemma_numbers_at(layout(), s, 8);
    crate::record::lemma_u32_offset(24, 9);
    crate::record::lemma_numbers_at(layout(), s, 9);
    crate::record::lemma_u32_offset(24, 10);
    crate::record::lemma_numbers_at(layout(), s, 10);
    crate::record::lemma_u32_offset(24, 11);
    crate::record::lemma_numbers_at(layout(), s, 11);
    crate::record::lemma_u32_offset(24, 12);
    crate::record::lemma_numbers_at(layout(), s, 12);
    crate::record::lemma_u32_offset(24, 13);
    crate::record::lemma_numbers_at(layout(), s, 13);
    crate::record::lemma_u32_offset(24, 14);
    crate::record::lemma_numbers_at(layout(), s, 14);
    crate::record::lemma_u32_offset(24, 15);
    crate::record::lemma_numbers_at(layout(), s, 15);
    crate::record::lemma_u32_offset(24, 16);
    crate::record::lemma_numbers_at(layout(), s, 16);
    crate::record::lemma_u32_offset(24, 17);
    crate::record::lemma_numbers_at(layout(), s, 17);
    crate::record::lemma_u32_offset(24, 18);
    crate::record::lemma_numbers_at(layout(), s, 18);
    crate::record::lemma_u32_offset(24, 19);
    crate::record::lemma_numbers_at(layout(), s, 19);
    crate::record::lemma_u32_offset(24, 20);
    crate::record::lemma_numbers_at(layout(), s, 20);
    crate::record::lemma_u32_offset(24, 21);
    crate::record::lemma_numbers_at(layout(), s, 21);
    crate::record::lemma_u32_offset(24, 22);
    crate::record::lemma_numbers_at(layout(), s, 22);
    crate::record::lemma_u32_offset(24, 23);
    crate::record::lemma_numbers_at(layout(), s, 23);
}

/// The record written for an event holds, little-endian, at offset 4 a
/// number that refers to its node, its run time at offset 92, and for each
/// of its seven values, in order, its bit (0 to 6) of the flag word at
/// offset 0 set exactly where it is present, and at offset `8 + 12 * bit`
/// the value's three numbers (zeros where it is absent).
#[verifier::rlimit(40)]
pub proof fn lemma_written_bytes(ad: AnimDefV, v: CameraFromTo<Seq<u8>>)
    requires
        serialize(ad, v) is Some,
    ensures
        ({
            let b = serialize(ad, v).unwrap();
            let fl = crate::record::le32_at(b, 0);
            &&& name_at(ad.nodes, crate::record::le32_at(b, 4) as int) == Some(v.name)
            &&& crate::record::le32_at(b, 92) == v.run_time
            &&& bit(fl, 0) == (v.clip_near is Some)
            &&& stored(v.clip_near) == FloatFromTo { from: crate::record::le32_at(b, 8), to: crate::record::le32_at(b, 12), delta: crate::record::le32_at(b, 16) }
            &&& bit(fl, 1) == (v.clip_far is Some)
            &&& stored(v.clip_far) == FloatFromTo { from: crate::record::le32_at(b, 20), to: crate::record::le32_at(b, 24), delta: crate::record::le32_at(b, 28) }
            &&& bit(fl, 2) == (v.lod_multiplier is Some)
            &&& stored(v.lod_multiplier) == FloatFromTo { from: crate::record::le32_at(b, 32), to: crate::record::le32_at(b, 36), delta: crate::record::le32_at(b, 40) }
            &&& bit(fl, 3) == (v.fov_h is Some)
            &&& stored(v.fov_h) == FloatFromTo { from: crate::record::le32_at(b, 44), to: crate::record::le32_at(b, 48), delta: crate::record::le32_at(b, 52) }
            &&& bit(fl, 4) == (v.fov_v is Some)
            &&& stored(v.fov_v) == FloatFromTo { from: crate::record::le32_at(b, 56), to: crate::record::le32_at(b, 60), delta: crate::record::le32_at(b, 64) }
            &&& bit(fl, 5) == (v.zoom_h is Some)
            &&& stored(v.zoom_h) == FloatFromTo { from: crate::record::le32_at(b, 68), to: crate::record::le32_at(b, 72), delta: crate::record::le32_at(b, 76) }
            &&& bit(fl, 6) == (v.zoom_v is Some)
            &&& stored(v.zoom_v) == FloatFromTo { from: crate::record::le32_at(b, 80), to: crate::record::le32_at(b, 84), delta: crate::record::le32_at(b, 88) }
        }),
{
    let g = to_fields(ad, v).unwrap();
    assert(conforms_all(g, layout())) by {
        assert forall|k: int| 0 <= k < g.len() implies #[trigger] crate::record::conforms(
            g[k],
            layout()[k],
        ) by {}
    }
    crate::anim_def::lemma_name_at_index_of(ad.nodes, v.name);
    lemma_word(
        v.clip_near is Some,
        v.clip_far is Some,
        v.lod_multiplier is Some,
        v.fov_h is Some,
        v.fov_v is Some,
        v.zoom_h is Some,
        v.zoom_v is Some,
    );
    crate::record::lemma_u32_offset(24, 0);
    crate::record::lemma_numbers_written(g, layout(), 0);
    crate::record::lemma_u32_offset(24, 1);
    crate::record::lemma_numbers_written(g, layout(), 1);
    crate::record::lemma_u32_offset(24, 2);
    crate::record::lemma_numbers_written(g, layout(), 2);
    crate::record::lemma_u32_offset(24, 3);
    crate::record::lemma_numbers_written(g, layout(), 3);
    crate::record::lemma_u32_offset(24, 4);
    crate::record::lemma_numbers_written(g, layout(), 4);
    crate::record::lemma_u32_offset(24, 5);
    crate::record::lemma_numbers_written(g, layout(), 5);
    crate::record::lemma_u32_offset(24, 6);
    crate::record::lemma_numbers_written(g, layout(), 6);
    crate::record::lemma_u32_offset(24, 7);
    crate::record::lemma_numbers_written(g, layout(), 7);
    crate::record::lemma_u32_offset(24, 8);
    crate::record::lemma_numbers_written(g, layout(), 8);
    crate::record::lemma_u32_offset(24, 9);
    crate::record::lemma_numbers_written(g, layout(), 9);
    crate::record::lemma_u32_offset(24, 10);
    crate::record::lemma_numbers_written(g, layout(), 10);
    crate::record::lemma_u32_offset(24, 11);
    crate::record::lemma_numbers_written(g, layout(), 11);
    crate::record::lemma_u32_offset(24, 12);
    crate::record::lemma_numbers_written(g, layout(), 12);
    crate::record::lemma_u32_offset(24, 13);
    crate::record::lemma_numbers_written(g, layout(), 13);
    crate::record::lemma_u32_offset(24, 14);
    crate::record::lemma_numbers_written(g, layout(), 14);
    crate::record::lemma_u32_offset(24, 15);
    crate::record::lemma_numbers_written(g, layout(), 15);
    crate::record::lemma_u32_offset(24, 16);
    crate::record::lemma_numbers_written(g, layout(), 16);
    crate::record::lemma_u32_offset(24, 17);
    crate::record::lemma_numbers_written(g, layout(), 17);
    crate::record::lemma_u32_offset(24, 18);
    crate::record::lemma_numbers_written(g, layout(), 18);
    crate::record::lemma_u32_offset(24, 19);
    crate::record::lemma_numbers_written(g, layout(), 19);
    crate::record::lemma_u32_offset(24, 20);
    crate::record::lemma_numbers_written(g, layout(), 20);
    crate::record::lemma_u32_offset(24, 21);
    crate::record::lemma_numbers_written(g, layout(), 21);
    crate::record::lemma_u32_offset(24, 22);
    crate::record::lemma_numbers_written(g, layout(), 22);
    crate::record::lemma_u32_offset(24, 23);
    crate::record::lemma_numbers_written(g, layout(), 23);
}

} // verus!
