//! `CAMERA_STATE` (20): sets some of the clip planes, level of detail,
//! field of view and zoom of a camera node.
use vstd::prelude::*;
use crate::anim_def::{index_of, lemma_name_reread, name_at, AnimDef, AnimDefV};
use crate::error::Error;
use crate::flags::{bit, bit_exec};
use crate::float;
use crate::record::{
    conforms_all, decode, decode_record, encode, encode_record, fields_view, get_u32,
    lemma_decode_conforms, lemma_decode_encode, lemma_encode_size, size, w32, FieldV, Fld, Kind,
};

use crate::anim_def::{lemma_index_of_name_at};
use crate::record::{lemma_conforming_fields, lemma_encode_decode};
verus! {

/// A `CAMERA_STATE` event: each value is set where present.
#[derive(Debug)]
pub struct CameraState<N> {
    pub name: N,
    pub clip_near: Option<u32>,
    pub clip_far: Option<u32>,
    pub lod_multiplier: Option<u32>,
    pub fov_h: Option<u32>,
    pub fov_v: Option<u32>,
    pub zoom_h: Option<u32>,
    pub zoom_v: Option<u32>,
}

impl DeepView for CameraState<Vec<u8>> {
    type V = CameraState<Seq<u8>>;

    open spec fn deep_view(&self) -> CameraState<Seq<u8>> {
        CameraState {
            name: self.name@,
            clip_near: self.clip_near,
            clip_far: self.clip_far,
            lod_multiplier: self.lod_multiplier,
            fov_h: self.fov_h,
            fov_v: self.fov_v,
            zoom_h: self.zoom_h,
            zoom_v: self.zoom_v,
        }
    }
}

/// Size of the record.
pub const SIZE: u32 = 36;

/// The flag word of the seven values, bit `i` for value `i` (clip near,
/// clip far, level of detail, horizontal and vertical field of view,
/// horizontal and vertical zoom).
pub open spec fn word(b0: bool, b1: bool, b2: bool, b3: bool, b4: bool, b5: bool, b6: bool) -> u32 {
    (if b0 { 1u32 } else { 0u32 }) | (if b1 { 2u32 } else { 0u32 }) | (if b2 { 4u32 } else { 0u32 })
        | (if b3 { 8u32 } else { 0u32 }) | (if b4 { 16u32 } else { 0u32 }) | (if b5 { 32u32 } else {
        0u32
    }) | (if b6 { 64u32 } else { 0u32 })
}

/// The bits of a flag word are the ones it was built with, and it has no
/// other.
pub proof fn lemma_word(b0: bool, b1: bool, b2: bool, b3: bool, b4: bool, b5: bool, b6: bool)
    by (bit_vector)
    ensures
        bit(word(b0, b1, b2, b3, b4, b5, b6), 0) == b0,
        bit(word(b0, b1, b2, b3, b4, b5, b6), 1) == b1,
        bit(word(b0, b1, b2, b3, b4, b5, b6), 2) == b2,
        bit(word(b0, b1, b2, b3, b4, b5, b6), 3) == b3,
        bit(word(b0, b1, b2, b3, b4, b5, b6), 4) == b4,
        bit(word(b0, b1, b2, b3, b4, b5, b6), 5) == b5,
        bit(word(b0, b1, b2, b3, b4, b5, b6), 6) == b6,
        word(b0, b1, b2, b3, b4, b5, b6) < 128,
{
}

/// A flag word of the seven known bits is the word of its bits.
pub proof fn lemma_word_rebuild(x: u32)
    by (bit_vector)
    requires
        x < 128,
    ensures
        x == word(bit(x, 0), bit(x, 1), bit(x, 2), bit(x, 3), bit(x, 4), bit(x, 5), bit(x, 6)),
{
}

/// The flag word of the values that are present.
pub fn word_exec(b0: bool, b1: bool, b2: bool, b3: bool, b4: bool, b5: bool, b6: bool) -> (r: u32)
    ensures
        r == word(b0, b1, b2, b3, b4, b5, b6),
{
    (if b0 { 1u32 } else { 0u32 }) | (if b1 { 2u32 } else { 0u32 }) | (if b2 { 4u32 } else { 0u32 })
        | (if b3 { 8u32 } else { 0u32 }) | (if b4 { 16u32 } else { 0u32 }) | (if b5 { 32u32 } else {
        0u32
    }) | (if b6 { 64u32 } else { 0u32 })
}

/// One value: present where its flag is set, otherwise stored as zero.
pub open spec fn value_of(set: bool, v: u32) -> Option<Option<u32>> {
    if set {
        Some(Some(v))
    } else if float::is_zero(v) {
        Some(None)
    } else {
        None
    }
}

fn value_of_exec(set: bool, v: u32) -> (r: Result<Option<u32>, Error>)
    ensures
        match value_of(set, v) {
            Some(o) => r == Ok::<Option<u32>, Error>(o),
            None => r == Err::<Option<u32>, Error>(Error::Invalid),
        },
{
    if set {
        Ok(Some(v))
    } else if float::f32_is_zero(v) {
        Ok(None)
    } else {
        Err(Error::Invalid)
    }
}

/// The stored value of an optional value.
pub open spec fn stored(o: Option<u32>) -> u32 {
    match o {
        Some(v) => v,
        None => 0,
    }
}

/// Fields: flags, node index (four bytes), the seven values.
pub open spec fn layout() -> Seq<Kind> {
    Seq::new(9, |i: int| Kind::U32)
}

fn layout_exec() -> (r: Vec<Kind>)
    ensures
        r@ == layout(),
        size(layout()) == SIZE,
{
    let r = vec![
        Kind::U32,
        Kind::U32,
        Kind::U32,
        Kind::U32,
        Kind::U32,
        Kind::U32,
        Kind::U32,
        Kind::U32,
        Kind::U32,
    ];
    proof {
        assert(r@ =~= layout());
        reveal_with_fuel(size, 10);
    }
    r
}

/// The event that the fields of a record describe, if they describe one:
/// only the seven known flags, and a zero for each value that is not set.
pub open spec fn from_fields(ad: AnimDefV, f: Seq<FieldV>) -> Option<CameraState<Seq<u8>>> {
    let fl = w32(f, 0);
    if fl >= 128 {
        None
    } else {
        match (
            name_at(ad.nodes, w32(f, 1) as int),
            value_of(bit(fl, 0), w32(f, 2)),
            value_of(bit(fl, 1), w32(f, 3)),
            value_of(bit(fl, 2), w32(f, 4)),
            value_of(bit(fl, 3), w32(f, 5)),
            value_of(bit(fl, 4), w32(f, 6)),
            value_of(bit(fl, 5), w32(f, 7)),
            value_of(bit(fl, 6), w32(f, 8)),
        ) {
            (
                Some(name),
                Some(clip_near),
                Some(clip_far),
                Some(lod_multiplier),
                Some(fov_h),
                Some(fov_v),
                Some(zoom_h),
                Some(zoom_v),
            ) => Some(
                CameraState { name, clip_near, clip_far, lod_multiplier, fov_h, fov_v, zoom_h, zoom_v },
            ),
            _ => None,
        }
    }
}

/// The fields of the record of an event, if it can be written.
pub open spec fn to_fields(ad: AnimDefV, v: CameraState<Seq<u8>>) -> Option<Seq<FieldV>> {
    match index_of(ad.nodes, v.name) {
        Some(ni) => Some(
            seq![
                FieldV::U32(
                    word(
                        v.clip_near is Some,
                        v.clip_far is Some,
                        v.lod_multiplier is Some,
                        v.fov_h is Some,
                        v.fov_v is Some,
                        v.zoom_h is Some,
                        v.zoom_v is Some,
                    ),
                ),
                FieldV::U32(ni as u32),
                FieldV::U32(stored(v.clip_near)),
                FieldV::U32(stored(v.clip_far)),
                FieldV::U32(stored(v.lod_multiplier)),
                FieldV::U32(stored(v.fov_h)),
                FieldV::U32(stored(v.fov_v)),
                FieldV::U32(stored(v.zoom_h)),
                FieldV::U32(stored(v.zoom_v)),
            ],
        ),
        None => None,
    }
}

/// The event that a record holds, if it holds one.
pub open spec fn parse(ad: AnimDefV, s: Seq<u8>) -> Option<CameraState<Seq<u8>>> {
    if s.len() == SIZE {
        from_fields(ad, decode(layout(), s))
    } else {
        None
    }
}

/// The record of an event, if it can be written.
pub open spec fn serialize(ad: AnimDefV, v: CameraState<Seq<u8>>) -> Option<Seq<u8>> {
    match to_fields(ad, v) {
        Some(f) => Some(encode(f)),
        None => None,
    }
}

/// Reads a `CAMERA_STATE` record.
pub fn read(data: &[u8], ad: &AnimDef) -> (r: Result<CameraState<Vec<u8>>, Error>)
    ensures
        match parse(ad@, data@) {
            Some(v) => r matches Ok(x) && x.deep_view() == v,
            None => r == Err::<CameraState<Vec<u8>>, Error>(Error::Invalid),
        },
{
    if data.len() != 36 {
        return Err(Error::Invalid);
    }
    let l = layout_exec();
    let f = decode_record(data, l.as_slice());
    let ghost fv = fields_view(f@);
    assert forall|i: int| 0 <= i < 9 implies fv[i] is U32 by {
        assert(crate::record::conforms(fv[i], layout()[i]));
    }
    let fl = get_u32(&f, 0);
    if fl >= 128 {
        return Err(Error::Invalid);
    }
    let name = ad.node_from_index(get_u32(&f, 1))?;
    let clip_near = value_of_exec(bit_exec(fl, 0), get_u32(&f, 2))?;
    let clip_far = value_of_exec(bit_exec(fl, 1), get_u32(&f, 3))?;
    let lod_multiplier = value_of_exec(bit_exec(fl, 2), get_u32(&f, 4))?;
    let fov_h = value_of_exec(bit_exec(fl, 3), get_u32(&f, 5))?;
    let fov_v = value_of_exec(bit_exec(fl, 4), get_u32(&f, 6))?;
    let zoom_h = value_of_exec(bit_exec(fl, 5), get_u32(&f, 7))?;
    let zoom_v = value_of_exec(bit_exec(fl, 6), get_u32(&f, 8))?;
    Ok(CameraState { name, clip_near, clip_far, lod_multiplier, fov_h, fov_v, zoom_h, zoom_v })
}

fn stored_exec(o: Option<u32>) -> (r: u32)
    ensures
        r == stored(o),
{
    match o {
        Some(v) => v,
        None => 0,
    }
}

/// Writes a `CAMERA_STATE` record.
pub fn write(v: &CameraState<Vec<u8>>, ad: &AnimDef, out: &mut Vec<u8>) -> (r: Result<(), Error>)
    ensures
        match serialize(ad@, v.deep_view()) {
            Some(b) => r is Ok && final(out)@ == old(out)@ + b,
            None => r == Err::<(), Error>(Error::Invalid) && final(out)@ == old(out)@,
        },
{
    let ni = ad.node_to_index(&v.name)?;
    let fl = word_exec(
        v.clip_near.is_some(),
        v.clip_far.is_some(),
        v.lod_multiplier.is_some(),
        v.fov_h.is_some(),
        v.fov_v.is_some(),
        v.zoom_h.is_some(),
        v.zoom_v.is_some(),
    );
    let fs = vec![
        Fld::U32(fl),
        Fld::U32(ni as u32),
        Fld::U32(stored_exec(v.clip_near)),
        Fld::U32(stored_exec(v.clip_far)),
        Fld::U32(stored_exec(v.lod_multiplier)),
        Fld::U32(stored_exec(v.fov_h)),
        Fld::U32(stored_exec(v.fov_v)),
        Fld::U32(stored_exec(v.zoom_h)),
        Fld::U32(stored_exec(v.zoom_v)),
    ];
    proof {
        assert(fields_view(fs@) =~= to_fields(ad@, v.deep_view()).unwrap());
    }
    encode_record(&fs, out);
    Ok(())
}

/// Writing an event that was read, then reading it again, gives the same
/// event.
pub proof fn lemma_reread(ad: AnimDefV, s: Seq<u8>)
    requires
        parse(ad, s) is Some,
    ensures
        serialize(ad, parse(ad, s).unwrap()) matches Some(b) && parse(ad, b) == parse(ad, s),
{
    let f = decode(layout(), s);
    lemma_name_reread(ad.nodes, w32(f, 1) as int);
    let v = parse(ad, s).unwrap();
    lemma_word(
        v.clip_near is Some,
        v.clip_far is Some,
        v.lod_multiplier is Some,
        v.fov_h is Some,
        v.fov_v is Some,
        v.zoom_h is Some,
        v.zoom_v is Some,
    );
    let g = to_fields(ad, v).unwrap();
    assert(conforms_all(g, layout()));
    lemma_decode_encode(g, layout());
    lemma_encode_size(g, layout());
    reveal_with_fuel(size, 10);
}

/// A record that is written has the record's size.
pub proof fn lemma_written_size(ad: AnimDefV, v: CameraState<Seq<u8>>)
    requires
        serialize(ad, v) is Some,
    ensures
        serialize(ad, v).unwrap().len() == SIZE,
{
    let g = to_fields(ad, v).unwrap();
    assert(conforms_all(g, layout()));
    lemma_encode_size(g, layout());
    reveal_with_fuel(size, 10);
}

/// The record is written back exactly as read: a value that is not set is not `-0.0`.
pub open spec fn exact_record(ad: AnimDefV, s: Seq<u8>) -> bool {
    let f = decode(layout(), s);
    &&& bit(w32(f, 0), 0) || w32(f, 2) != float::NEG_ZERO
    &&& bit(w32(f, 0), 1) || w32(f, 3) != float::NEG_ZERO
    &&& bit(w32(f, 0), 2) || w32(f, 4) != float::NEG_ZERO
    &&& bit(w32(f, 0), 3) || w32(f, 5) != float::NEG_ZERO
    &&& bit(w32(f, 0), 4) || w32(f, 6) != float::NEG_ZERO
    &&& bit(w32(f, 0), 5) || w32(f, 7) != float::NEG_ZERO
    &&& bit(w32(f, 0), 6) || w32(f, 8) != float::NEG_ZERO
}

/// Writing the event of a record gives the record back, where the nodes of the
/// definition are distinct and the record is written back exactly.
pub proof fn lemma_exact(ad: AnimDefV, s: Seq<u8>)
    requires
        parse(ad, s) is Some,
        crate::anim_def::unique_names(ad.nodes),
        exact_record(ad, s),
    ensures
        serialize(ad, parse(ad, s).unwrap()) == Some(s),
{
    let f = decode(layout(), s);
    reveal_with_fuel(size, 10);
    lemma_decode_conforms(layout(), s);
    lemma_encode_decode(layout(), s);
    lemma_conforming_fields(f, layout());
    lemma_index_of_name_at(ad.nodes, w32(f, 1) as int);
    lemma_word_rebuild(w32(f, 0));
    assert(to_fields(ad, parse(ad, s).unwrap()).unwrap() =~= f);
}

/// An event read from a record holds the record's numbers, little-endian:
/// its node is the one that the number at offset 4 refers to, and each of
/// its seven values, in order, is present exactly where its bit (0 to 6) of
/// the flag word at offset 0 is set, and is then the number at offset
/// `8 + 4 * bit`.
pub proof fn lemma_read_bytes(ad: AnimDefV, s: Seq<u8>)
    requires
        parse(ad, s) is Some,
    ensures
        ({
            let v = parse(ad, s).unwrap();
            let fl = crate::record::le32_at(s, 0);
            &&& name_at(ad.nodes, crate::record::le32_at(s, 4) as int) == Some(v.name)
            &&& (v.clip_near is Some) == bit(fl, 0)
            &&& v.clip_near matches Some(x) ==> x == crate::record::le32_at(s, 8)
            &&& (v.clip_far is Some) == bit(fl, 1)
            &&& v.clip_far matches Some(x) ==> x == crate::record::le32_at(s, 12)
            &&& (v.lod_multiplier is Some) == bit(fl, 2)
            &&& v.lod_multiplier matches Some(x) ==> x == crate::record::le32_at(s, 16)
            &&& (v.fov_h is Some) == bit(fl, 3)
            &&& v.fov_h matches Some(x) ==> x == crate::record::le32_at(s, 20)
            &&& (v.fov_v is Some) == bit(fl, 4)
            &&& v.fov_v matches Some(x) ==> x == crate::record::le32_at(s, 24)
            &&& (v.zoom_h is Some) == bit(fl, 5)
            &&& v.zoom_h matches Some(x) ==> x == crate::record::le32_at(s, 28)
            &&& (v.zoom_v is Some) == bit(fl, 6)
            &&& v.zoom_v matches Some(x) ==> x == crate::record::le32_at(s, 32)
        }),
{
    crate::record::lemma_u32_size(9);
    crate::record::lemma_u32_offset(9, 0);
    crate::record::lemma_numbers_at(layout(), s, 0);
    crate::record::lemma_u32_offset(9, 1);
    crate::record::lemma_numbers_at(layout(), s, 1);
    crate::record::lemma_u32_offset(9, 2);
    crate::record::lemma_numbers_at(layout(), s, 2);
    crate::record::lemma_u32_offset(9, 3);
    crate::record::lemma_numbers_at(layout(), s, 3);
    crate::record::lemma_u32_offset(9, 4);
    crate::record::lemma_numbers_at(layout(), s, 4);
    crate::record::lemma_u32_offset(9, 5);
    crate::record::lemma_numbers_at(layout(), s, 5);
    crate::record::lemma_u32_offset(9, 6);
    crate::record::lemma_numbers_at(layout(), s, 6);
    crate::record::lemma_u32_offset(9, 7);
    crate::record::lemma_numbers_at(layout(), s, 7);
    crate::record::lemma_u32_offset(9, 8);
    crate::record::lemma_numbers_at(layout(), s, 8);
}

/// The record written for an event holds, little-endian, at offset 4 a
/// number that refers to its node, and for each of its seven values, in
/// order, its bit (0 to 6) of the flag word at offset 0 set exactly where
/// it is present, and at offset `8 + 4 * bit` the value (zero where it is
/// absent).
pub proof fn lemma_written_bytes(ad: AnimDefV, v: CameraState<Seq<u8>>)
    requires
        serialize(ad, v) is Some,
    ensures
        ({
            let b = serialize(ad, v).unwrap();
            let fl = crate::record::le32_at(b, 0);
            &&& name_at(ad.nodes, crate::record::le32_at(b, 4) as int) == Some(v.name)
            &&& bit(fl, 0) == (v.clip_near is Some)
            &&& crate::record::le32_at(b, 8) == stored(v.clip_near)
            &&& bit(fl, 1) == (v.clip_far is Some)
            &&& crate::record::le32_at(b, 12) == stored(v.clip_far)
            &&& bit(fl, 2) == (v.lod_multiplier is Some)
            &&& crate::record::le32_at(b, 16) == stored(v.lod_multiplier)
            &&& bit(fl, 3) == (v.fov_h is Some)
            &&& crate::record::le32_at(b, 20) == stored(v.fov_h)
            &&& bit(fl, 4) == (v.fov_v is Some)
            &&& crate::record::le32_at(b, 24) == stored(v.fov_v)
            &&& bit(fl, 5) == (v.zoom_h is Some)
            &&& crate::record::le32_at(b, 28) == stored(v.zoom_h)
            &&& bit(fl, 6) == (v.zoom_v is Some)
            &&& crate::record::le32_at(b, 32) == stored(v.zoom_v)
        }),
{
    let g = to_fields(ad, v).unwrap();
    assert(conforms_all(g, layout())) by {
        assert forall|k: int| 0 <= k < g.len() implies #[trigger] crate::record::conforms(
            g[k],
            layout()[k],
        ) by {}
    }
    crate::anim_def::lemma_name_at_index_of(ad.nodes, v.name);
    lemma_word(
        v.clip_near is Some,
        v.clip_far is Some,
        v.lod_multiplier is Some,
        v.fov_h is Some,
        v.fov_v is Some,
        v.zoom_h is Some,
        v.zoom_v is Some,
    );
    crate::record::lemma_u32_offset(9, 0);
    crate::record::lemma_numbers_written(g, layout(), 0);
    crate::record::lemma_u32_offset(9, 1);
    crate::record::lemma_numbers_written(g, layout(), 1);
    crate::record::lemma_u32_offset(9, 2);
    crate::record::lemma_numbers_written(g, layout(), 2);
    crate::record::lemma_u32_offset(9, 3);
    crate::record::lemma_numbers_written(g, layout(), 3);
    crate::record::lemma_u32_offset(9, 4);
    crate::record::lemma_numbers_written(g, layout(), 4);
    crate::record::lemma_u32_offset(9, 5);
    crate::record::lemma_numbers_written(g, layout(), 5);
    crate::record::lemma_u32_offset(9, 6);
    crate::record::lemma_numbers_written(g, layout(), 6);
    crate::record::lemma_u32_offset(9, 7);
    crate::record::lemma_numbers_written(g, layout(), 7);
    crate::record::lemma_u32_offset(9, 8);
    crate::record::lemma_numbers_written(g, layout(), 8);
}

} // verus!
