//! `OBJECT_MOTION_SI_SCRIPT` (12): moves a node along a script of frames.
//!
//! The record is a 24-byte header (node index, frame count, and four values
//! the game fills in, stored as zero) followed by the frames of the script.
use vstd::prelude::*;
use crate::anim_def::{index_of, lemma_name_reread, name_at, AnimDef, AnimDefV};
use crate::error::Error;
use crate::float;
use crate::record::{
    append_bytes, conforms_all, decode, decode_record, encode, encode_record, fields_view, get_u32,
    lemma_decode_conforms, lemma_decode_encode, lemma_decode_prefix_bytes, lemma_encode_decode,
    lemma_encode_size, size, w32, FieldV, Fld, Kind,
};
use crate::si_script::{
    frames_size, lemma_frames_bytes, lemma_frames_values, parse_frames, read_si_script_frames,
    serialize_frames, size_si_script_frames, write_si_script_frames, ObjectMotionSiFrame,
};
use vstd::slice::slice_subrange;

use crate::anim_def::{lemma_index_of_name_at};
verus! {

broadcast use vstd::seq_lib::group_seq_properties;

/// An `OBJECT_MOTION_SI_SCRIPT` event: a node and the frames of its script.
#[derive(Debug)]
pub struct ObjectMotionSiScript {
    pub name: Vec<u8>,
    pub frames: Vec<ObjectMotionSiFrame<Vec<u8>>>,
}

/// An `OBJECT_MOTION_SI_SCRIPT` event, as Verus sees it.
pub struct ObjectMotionSiScriptV {
    pub name: Seq<u8>,
    pub frames: Seq<ObjectMotionSiFrame<Seq<u8>>>,
}

impl DeepView for ObjectMotionSiScript {
    type V = ObjectMotionSiScriptV;

    open spec fn deep_view(&self) -> ObjectMotionSiScriptV {
        ObjectMotionSiScriptV { name: self.name@, frames: self.frames.deep_view() }
    }
}

/// Size of the header.
pub const HEADER: u32 = 24;

/// Fields of the header: node index (four bytes), frame count, an unknown
/// value, script time, script position, frame index.
pub open spec fn layout() -> Seq<Kind> {
    seq![Kind::U32, Kind::U32, Kind::U32, Kind::U32, Kind::U32, Kind::U32]
}

fn layout_exec() -> (r: Vec<Kind>)
    ensures
        r@ == layout(),
        size(layout()) == HEADER,
{
    let r = vec![Kind::U32, Kind::U32, Kind::U32, Kind::U32, Kind::U32, Kind::U32];
    proof {
        assert(r@ =~= layout());
        reveal_with_fuel(size, 7);
    }
    r
}

/// The size of the record of an event.
pub open spec fn data_size(v: ObjectMotionSiScriptV) -> nat {
    HEADER as nat + frames_size(v.frames)
}

/// The event that a record holds, if it holds one: a node, zero values the
/// game fills in, and as many frames as the count says, filling the rest.
pub open spec fn parse(ad: AnimDefV, s: Seq<u8>) -> Option<ObjectMotionSiScriptV> {
    if s.len() < HEADER {
        None
    } else {
        let f = decode(layout(), s);
        if !float::is_zero(w32(f, 2)) || !float::is_zero(w32(f, 3)) || w32(f, 4) != 0 || w32(f, 5)
            != 0 {
            None
        } else {
            match (
                name_at(ad.nodes, w32(f, 0) as int),
                parse_frames(s.subrange(HEADER as int, s.len() as int), w32(f, 1) as nat),
            ) {
                (Some(name), Some(frames)) => Some(ObjectMotionSiScriptV { name, frames }),
                _ => None,
            }
        }
    }
}

/// The header fields of an event.
pub open spec fn header_fields(ni: int, count: int) -> Seq<FieldV> {
    seq![
        FieldV::U32(ni as u32),
        FieldV::U32(count as u32),
        FieldV::U32(0),
        FieldV::U32(0),
        FieldV::U32(0),
        FieldV::U32(0),
    ]
}

/// The record of an event, if it can be written.
pub open spec fn serialize(ad: AnimDefV, v: ObjectMotionSiScriptV) -> Option<Seq<u8>> {
    if v.frames.len() > u32::MAX {
        None
    } else {
        match (index_of(ad.nodes, v.name), serialize_frames(v.frames)) {
            (Some(ni), Some(b)) => Some(encode(header_fields(ni, v.frames.len() as int)) + b),
            _ => None,
        }
    }
}

/// The size of the record of an event, if it fits in a `u32`.
pub fn size_of(v: &ObjectMotionSiScript) -> (r: Option<u32>)
    ensures
        r == (if data_size(v.deep_view()) <= u32::MAX {
            Some(data_size(v.deep_view()) as u32)
        } else {
            None
        }),
{
    match size_si_script_frames(&v.frames) {
        Some(n) => n.checked_add(24),
        None => None,
    }
}

/// Reads an `OBJECT_MOTION_SI_SCRIPT` record.
pub fn read(data: &[u8], ad: &AnimDef) -> (r: Result<ObjectMotionSiScript, Error>)
    ensures
        match parse(ad@, data@) {
            Some(v) => r matches Ok(x) && x.deep_view() == v,
            None => r == Err::<ObjectMotionSiScript, Error>(Error::Invalid),
        },
{
    if data.len() < 24 {
        return Err(Error::Invalid);
    }
    let l = layout_exec();
    let f = decode_record(data, l.as_slice());
    let ni = get_u32(&f, 0);
    let count = get_u32(&f, 1);
    if !float::f32_is_zero(get_u32(&f, 2)) || !float::f32_is_zero(get_u32(&f, 3)) || get_u32(&f, 4)
        != 0 || get_u32(&f, 5) != 0 {
        return Err(Error::Invalid);
    }
    let name = ad.node_from_index(ni)?;
    let rest = slice_subrange(data, 24, data.len());
    let frames = read_si_script_frames(rest, count)?;
    Ok(ObjectMotionSiScript { name, frames })
}

/// Writes an `OBJECT_MOTION_SI_SCRIPT` record.
pub fn write(v: &ObjectMotionSiScript, ad: &AnimDef, out: &mut Vec<u8>) -> (r: Result<(), Error>)
    ensures
        match serialize(ad@, v.deep_view()) {
            Some(b) => r is Ok && final(out)@ == old(out)@ + b,
            None => r == Err::<(), Error>(Error::Invalid) && final(out)@ == old(out)@,
        },
{
    if v.frames.len() > 0xFFFF_FFFF {
        return Err(Error::Invalid);
    }
    let ni = ad.node_to_index(&v.name)?;
    let mut buf: Vec<u8> = Vec::new();
    let fs = vec![
        Fld::U32(ni as u32),
        Fld::U32(v.frames.len() as u32),
        Fld::U32(0),
        Fld::U32(0),
        Fld::U32(0),
        Fld::U32(0),
    ];
    proof {
        assert(fields_view(fs@) =~= header_fields(
            index_of(ad@.nodes, v.name@).unwrap(),
            v.frames@.len() as int,
        ));
    }
    encode_record(&fs, &mut buf);
    match write_si_script_frames(&v.frames, &mut buf) {
        Ok(()) => {},
        Err(_) => return Err(Error::Invalid),
    }
    append_bytes(out, &buf);
    Ok(())
}

/// Writing an event that was read, then reading it again, gives the same
/// event, in a record of the event's size.
pub proof fn lemma_reread(ad: AnimDefV, s: Seq<u8>)
    requires
        parse(ad, s) is Some,
    ensures
        serialize(ad, parse(ad, s).unwrap()) matches Some(b) && b.len() == data_size(
            parse(ad, s).unwrap(),
        ) && parse(ad, b) == parse(ad, s),
        s.len() == data_size(parse(ad, s).unwrap()),
{
    let f = decode(layout(), s);
    let v = parse(ad, s).unwrap();
    let rest = s.subrange(HEADER as int, s.len() as int);
    reveal_with_fuel(size, 7);
    lemma_name_reread(ad.nodes, w32(f, 0) as int);
    lemma_frames_bytes(rest, w32(f, 1) as nat);
    lemma_frames_values(v.frames);
    crate::si_script::lemma_parse_frames_len(rest, w32(f, 1) as nat);
    let ni = index_of(ad.nodes, v.name).unwrap();
    let g = header_fields(ni, v.frames.len() as int);
    assert(conforms_all(g, layout()));
    lemma_decode_encode(g, layout());
    lemma_encode_size(g, layout());
    let h = encode(g);
    let b = h + rest;
    lemma_decode_prefix_bytes(layout(), b);
    assert(b.take(24) =~= h);
    lemma_decode_prefix_bytes(layout(), h);
    assert(h.take(24) =~= h);
    assert(b.subrange(24, b.len() as int) =~= rest);
}

/// An `OBJECT_MOTION_SI_SCRIPT` event of Pirate's Moon: a node and the
/// index of a script that the file holds elsewhere.
#[derive(Debug)]
pub struct ObjectMotionSiScriptPm {
    pub name: Vec<u8>,
    pub index: u32,
}

/// An `OBJECT_MOTION_SI_SCRIPT` event of Pirate's Moon, as Verus sees it.
pub struct ObjectMotionSiScriptPmV {
    pub name: Seq<u8>,
    pub index: u32,
}

impl DeepView for ObjectMotionSiScriptPm {
    type V = ObjectMotionSiScriptPmV;

    open spec fn deep_view(&self) -> ObjectMotionSiScriptPmV {
        ObjectMotionSiScriptPmV { name: self.name@, index: self.index }
    }
}

/// The event that a Pirate's Moon record holds, if it holds one: a header
/// alone, with a node, a script index and zero values the game fills in.
pub open spec fn parse_pm(ad: AnimDefV, s: Seq<u8>) -> Option<ObjectMotionSiScriptPmV> {
    if s.len() != HEADER {
        None
    } else {
        let f = decode(layout(), s);
        if !float::is_zero(w32(f, 2)) || !float::is_zero(w32(f, 3)) || w32(f, 4) != 0 || w32(f, 5)
            != 0 {
            None
        } else {
            match name_at(ad.nodes, w32(f, 0) as int) {
                Some(name) => Some(ObjectMotionSiScriptPmV { name, index: w32(f, 1) }),
                None => None,
            }
        }
    }
}

/// The Pirate's Moon record of an event, if its node is known.
pub open spec fn serialize_pm(ad: AnimDefV, v: ObjectMotionSiScriptPmV) -> Option<Seq<u8>> {
    match index_of(ad.nodes, v.name) {
        Some(ni) => Some(encode(header_fields(ni, v.index as int))),
        None => None,
    }
}

/// Reads a Pirate's Moon `OBJECT_MOTION_SI_SCRIPT` record.
pub fn read_pm(data: &[u8], ad: &AnimDef) -> (r: Result<ObjectMotionSiScriptPm, Error>)
    ensures
        match parse_pm(ad@, data@) {
            Some(v) => r matches Ok(x) && x.deep_view() == v,
            None => r == Err::<ObjectMotionSiScriptPm, Error>(Error::Invalid),
        },
{
    if data.len() != 24 {
        return Err(Error::Invalid);
    }
    let l = layout_exec();
    let f = decode_record(data, l.as_slice());
    let ni = get_u32(&f, 0);
    let index = get_u32(&f, 1);
    if !float::f32_is_zero(get_u32(&f, 2)) || !float::f32_is_zero(get_u32(&f, 3)) || get_u32(&f, 4)
        != 0 || get_u32(&f, 5) != 0 {
        return Err(Error::Invalid);
    }
    let name = ad.node_from_index(ni)?;
    Ok(ObjectMotionSiScriptPm { name, index })
}

/// Writes a Pirate's Moon `OBJECT_MOTION_SI_SCRIPT` record.
pub fn write_pm(v: &ObjectMotionSiScriptPm, ad: &AnimDef, out: &mut Vec<u8>) -> (r: Result<
    (),
    Error,
>)
    ensures
        match serialize_pm(ad@, v.deep_view()) {
            Some(b) => r is Ok && final(out)@ == old(out)@ + b,
            None => r == Err::<(), Error>(Error::Invalid) && final(out)@ == old(out)@,
        },
{
    let ni = ad.node_to_index(&v.name)?;
    let fs = vec![
        Fld::U32(ni as u32),
        Fld::U32(v.index),
        Fld::U32(0),
        Fld::U32(0),
        Fld::U32(0),
        Fld::U32(0),
    ];
    proof {
        assert(fields_view(fs@) =~= header_fields(
            index_of(ad@.nodes, v.name@).unwrap(),
            v.index as int,
        ));
    }
    encode_record(&fs, out);
    Ok(())
}

/// Writing a Pirate's Moon event that was read, then reading it again,
/// gives the same event.
pub proof fn lemma_reread_pm(ad: AnimDefV, s: Seq<u8>)
    requires
        parse_pm(ad, s) is Some,
    ensures
        serialize_pm(ad, parse_pm(ad, s).unwrap()) matches Some(b) && b.len() == HEADER && parse_pm(
            ad,
            b,
        ) == parse_pm(ad, s),
{
    let f = decode(layout(), s);
    let v = parse_pm(ad, s).unwrap();
    reveal_with_fuel(size, 7);
    lemma_name_reread(ad.nodes, w32(f, 0) as int);
    let ni = index_of(ad.nodes, v.name).unwrap();
    let g = header_fields(ni, v.index as int);
    assert(conforms_all(g, layout()));
    lemma_decode_encode(g, layout());
    lemma_encode_size(g, layout());
}

/// A record that is written has the event's size.
pub proof fn lemma_written_size(ad: AnimDefV, v: ObjectMotionSiScriptV)
    requires
        serialize(ad, v) is Some,
    ensures
        serialize(ad, v).unwrap().len() == data_size(v),
{
    let ni = index_of(ad.nodes, v.name).unwrap();
    let g = header_fields(ni, v.frames.len() as int);
    assert(conforms_all(g, layout()));
    lemma_encode_size(g, layout());
    reveal_with_fuel(size, 7);
    lemma_frames_values(v.frames);
}

/// The record is written back exactly as read: the two time values of its
/// header are not `-0.0`.
pub open spec fn exact_record(ad: AnimDefV, s: Seq<u8>) -> bool {
    let f = decode(layout(), s);
    w32(f, 2) != float::NEG_ZERO && w32(f, 3) != float::NEG_ZERO
}

/// Writing the event of a record gives the record back, where the nodes of the
/// definition are distinct and the record is written back exactly.
pub proof fn lemma_exact(ad: AnimDefV, s: Seq<u8>)
    requires
        parse(ad, s) is Some,
        crate::anim_def::unique_names(ad.nodes),
        exact_record(ad, s),
    ensures
        serialize(ad, parse(ad, s).unwrap()) == Some(s),
{
    let f = decode(layout(), s);
    let v = parse(ad, s).unwrap();
    let rest = s.subrange(HEADER as int, s.len() as int);
    reveal_with_fuel(size, 7);
    lemma_index_of_name_at(ad.nodes, w32(f, 0) as int);
    lemma_frames_bytes(rest, w32(f, 1) as nat);
    crate::si_script::lemma_parse_frames_len(rest, w32(f, 1) as nat);
    let h = s.take(24);
    lemma_decode_prefix_bytes(layout(), s);
    lemma_decode_conforms(layout(), h);
    crate::record::lemma_encode_decode(layout(), h);
    crate::record::lemma_conforming_fields(f, layout());
    assert(header_fields(w32(f, 0) as int, v.frames.len() as int) =~= f);
    assert(h + rest =~= s);
}

/// Writing the event of a Pirate's Moon record gives the record back, where the
/// nodes of the definition are distinct and the record is written back
/// exactly (`exact_record`).
pub proof fn lemma_exact_pm(ad: AnimDefV, s: Seq<u8>)
    requires
        parse_pm(ad, s) is Some,
        crate::anim_def::unique_names(ad.nodes),
        exact_record(ad, s),
    ensures
        serialize_pm(ad, parse_pm(ad, s).unwrap()) == Some(s),
{
    let f = decode(layout(), s);
    let v = parse_pm(ad, s).unwrap();
    reveal_with_fuel(size, 7);
    lemma_index_of_name_at(ad.nodes, w32(f, 0) as int);
    lemma_decode_conforms(layout(), s);
    lemma_encode_decode(layout(), s);
    crate::record::lemma_conforming_fields(f, layout());
    assert(header_fields(w32(f, 0) as int, v.index as int) =~= f);
}

/// The offset of each field of the record.
proof fn lemma_offsets()
    ensures
        size(layout().take(0)) == 0,
        size(layout().take(1)) == 4,
        size(layout().take(2)) == 8,
        size(layout().take(3)) == 12,
        size(layout().take(4)) == 16,
        size(layout().take(5)) == 20,
{
    reveal_with_fuel(size, 7);
    assert(layout().take(0) =~= Seq::<Kind>::empty());
    assert(layout().take(1) =~= seq![Kind::U32]);
    assert(layout().take(2) =~= seq![Kind::U32, Kind::U32]);
    assert(layout().take(3) =~= seq![Kind::U32, Kind::U32, Kind::U32]);
    assert(layout().take(4) =~= seq![Kind::U32, Kind::U32, Kind::U32, Kind::U32]);
    assert(layout().take(5) =~= seq![Kind::U32, Kind::U32, Kind::U32, Kind::U32, Kind::U32]);
}

/// An event read from a record holds the record's numbers, little-endian:
/// its node is the one that the number at offset 0 refers to, and it has as
/// many frames as the number at offset 4 says.
pub proof fn lemma_read_bytes(ad: AnimDefV, s: Seq<u8>)
    requires
        parse(ad, s) is Some,
    ensures
        name_at(ad.nodes, crate::record::le32_at(s, 0) as int) == Some(parse(ad, s).unwrap().name),
        parse(ad, s).unwrap().frames.len() == crate::record::le32_at(s, 4),
{
    lemma_offsets();
    crate::record::lemma_numbers_at(layout(), s, 0);
    crate::record::lemma_numbers_at(layout(), s, 1);
    let f = decode(layout(), s);
    crate::si_script::lemma_parse_frames_len(s.subrange(HEADER as int, s.len() as int), w32(f, 1) as nat);
}

/// The record written for an event holds, little-endian, at offset 0 a
/// number that refers to its node, and at offset 4 the number of its
/// frames.
pub proof fn lemma_written_bytes(ad: AnimDefV, v: ObjectMotionSiScriptV)
    requires
        serialize(ad, v) is Some,
    ensures
        name_at(ad.nodes, crate::record::le32_at(serialize(ad, v).unwrap(), 0) as int) == Some(v.name),
        crate::record::le32_at(serialize(ad, v).unwrap(), 4) == v.frames.len(),
{
    let ni = index_of(ad.nodes, v.name).unwrap();
    let g = header_fields(ni, v.frames.len() as int);
    assert(conforms_all(g, layout())) by {
        assert forall|k: int| 0 <= k < g.len() implies #[trigger] crate::record::conforms(
            g[k],
            layout()[k],
        ) by {}
    }
    crate::anim_def::lemma_name_at_index_of(ad.nodes, v.name);
    lemma_offsets();
    crate::record::lemma_numbers_written(g, layout(), 0);
    crate::record::lemma_numbers_written(g, layout(), 1);
    let b = serialize(ad, v).unwrap();
    let h = encode(g);
    assert(b.subrange(0, 4) =~= h.subrange(0, 4));
    assert(b.subrange(4, 8) =~= h.subrange(4, 8));
}

/// A Pirate's Moon event read from a record holds the record's numbers,
/// little-endian: its node is the one that the number at offset 0 refers
/// to, and its script index the number at offset 4.
pub proof fn lemma_read_bytes_pm(ad: AnimDefV, s: Seq<u8>)
    requires
        parse_pm(ad, s) is Some,
    ensures
        name_at(ad.nodes, crate::record::le32_at(s, 0) as int) == Some(parse_pm(ad, s).unwrap().name),
        parse_pm(ad, s).unwrap().index == crate::record::le32_at(s, 4),
{
    lemma_offsets();
    crate::record::lemma_numbers_at(layout(), s, 0);
    crate::record::lemma_numbers_at(layout(), s, 1);
}

/// The Pirate's Moon record written for an event holds, little-endian, at
/// offset 0 a number that refers to its node, and at offset 4 its script
/// index.
pub proof fn lemma_written_bytes_pm(ad: AnimDefV, v: ObjectMotionSiScriptPmV)
    requires
        serialize_pm(ad, v) is Some,
    ensures
        name_at(ad.nodes, crate::record::le32_at(serialize_pm(ad, v).unwrap(), 0) as int) == Some(v.name),
        crate::record::le32_at(serialize_pm(ad, v).unwrap(), 4) == v.index,
{
    let ni = index_of(ad.nodes, v.name).unwrap();
    let g = header_fields(ni, v.index as int);
    assert(conforms_all(g, layout())) by {
        assert forall|k: int| 0 <= k < g.len() implies #[trigger] crate::record::conforms(
            g[k],
            layout()[k],
        ) by {}
    }
    crate::anim_def::lemma_name_at_index_of(ad.nodes, v.name);
    lemma_offsets();
    crate::record::lemma_numbers_written(g, layout(), 0);
    crate::record::lemma_numbers_written(g, layout(), 1);
}

} // verus!
