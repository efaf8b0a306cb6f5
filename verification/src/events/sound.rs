//! `SOUND` (1): plays a static sound, at a node or without a position.
use vstd::prelude::*;
use crate::anim_def::{
    index_of, lemma_index_of_name_at, lemma_index_of_some, lemma_name_at_index_of, name_at, unique_names, AnimDef,
    AnimDefV,
};
use crate::error::Error;
use crate::model::{vec3_is_zero, vec3_is_zero_exec, vec3_no_neg_zero, AtNode, Vec3};
use crate::record::{
    conforms_all, decode, decode_record, encode, encode_record, fields_view, get_u16, get_u32,
    lemma_conforming_fields, lemma_decode_conforms, lemma_decode_encode, lemma_encode_decode, lemma_encode_size, size,
    w16, w32, FieldV, Fld, Kind,
};

verus! {

/// A `SOUND` event.
#[derive(Debug)]
pub struct Sound<N> {
    pub name: N,
    pub at_node: Option<AtNode<N>>,
}

impl DeepView for Sound<Vec<u8>> {
    type V = Sound<Seq<u8>>;

    open spec fn deep_view(&self) -> Sound<Seq<u8>> {
        Sound { name: self.name@, at_node: self.at_node.deep_view() }
    }
}

/// Size of the record.
pub const SIZE: u32 = 16;

/// Fields: sound index, node index, position.
pub open spec fn layout() -> Seq<Kind> {
    seq![Kind::U16, Kind::U16, Kind::U32, Kind::U32, Kind::U32]
}

fn layout_exec() -> (r: Vec<Kind>)
    ensures
        r@ == layout(),
        size(layout()) == SIZE,
{
    let r = vec![Kind::U16, Kind::U16, Kind::U32, Kind::U32, Kind::U32];
    proof {
        assert(r@ =~= layout());
        reveal_with_fuel(size, 6);
    }
    r
}

/// The event that the fields of a record describe, if they describe one.
pub open spec fn from_fields(ad: AnimDefV, f: Seq<FieldV>) -> Option<Sound<Seq<u8>>> {
    let pos = Vec3 { x: w32(f, 2), y: w32(f, 3), z: w32(f, 4) };
    match name_at(ad.static_sounds, w16(f, 0) as int) {
        None => None,
        Some(name) => if w16(f, 1) == 0 {
            if vec3_is_zero(pos) {
                Some(Sound { name, at_node: None })
            } else {
                None
            }
        } else {
            match name_at(ad.nodes, w16(f, 1) as int) {
                None => None,
                Some(node) => Some(Sound { name, at_node: Some(AtNode { name: node, pos }) }),
            }
        },
    }
}

/// The fields of the record of an event, if it can be written.
pub open spec fn to_fields(ad: AnimDefV, v: Sound<Seq<u8>>) -> Option<Seq<FieldV>> {
    match index_of(ad.static_sounds, v.name) {
        None => None,
        Some(si) => match v.at_node {
            None => Some(
                seq![
                    FieldV::U16(si as u16),
                    FieldV::U16(0),
                    FieldV::U32(0),
                    FieldV::U32(0),
                    FieldV::U32(0),
                ],
            ),
            Some(a) => match index_of(ad.nodes, a.name) {
                None => None,
                Some(ni) => Some(
                    seq![
                        FieldV::U16(si as u16),
                        FieldV::U16(ni as u16),
                        FieldV::U32(a.pos.x),
                        FieldV::U32(a.pos.y),
                        FieldV::U32(a.pos.z),
                    ],
                ),
            },
        },
    }
}

/// The event that a record holds, if it holds one.
pub open spec fn parse(ad: AnimDefV, s: Seq<u8>) -> Option<Sound<Seq<u8>>> {
    if s.len() == SIZE {
        from_fields(ad, decode(layout(), s))
    } else {
        None
    }
}

/// The record of an event, if it can be written.
pub open spec fn serialize(ad: AnimDefV, v: Sound<Seq<u8>>) -> Option<Seq<u8>> {
    match to_fields(ad, v) {
        Some(f) => Some(encode(f)),
        None => None,
    }
}

/// The record has no `-0.0` where the format only checks for a zero.
pub open spec fn exact(f: Seq<FieldV>) -> bool {
    w16(f, 1) == 0 ==> vec3_no_neg_zero(Vec3 { x: w32(f, 2), y: w32(f, 3), z: w32(f, 4) })
}

/// Reads a `SOUND` record.
pub fn read(data: &[u8], ad: &AnimDef) -> (r: Result<Sound<Vec<u8>>, Error>)
    ensures
        match parse(ad@, data@) {
            Some(v) => r matches Ok(x) && x.deep_view() == v,
            None => r == Err::<Sound<Vec<u8>>, Error>(Error::Invalid),
        },
{
    if data.len() != 16 {
        return Err(Error::Invalid);
    }
    let l = layout_exec();
    let f = decode_record(data, l.as_slice());
    let ghost fv = decode(layout(), data@);
    let sound_index = get_u16(&f, 0);
    let node_index = get_u16(&f, 1);
    let pos = Vec3 { x: get_u32(&f, 2), y: get_u32(&f, 3), z: get_u32(&f, 4) };
    let name = ad.stc_sound_from_index(sound_index as u32)?;
    if node_index == 0 {
        if !vec3_is_zero_exec(pos) {
            return Err(Error::Invalid);
        }
        Ok(Sound { name, at_node: None })
    } else {
        let node = ad.node_from_index(node_index as u32)?;
        Ok(Sound { name, at_node: Some(AtNode { name: node, pos }) })
    }
}

/// Writes a `SOUND` record.
pub fn write(v: &Sound<Vec<u8>>, ad: &AnimDef, out: &mut Vec<u8>) -> (r: Result<(), Error>)
    ensures
        match serialize(ad@, v.deep_view()) {
            Some(b) => r is Ok && final(out)@ == old(out)@ + b,
            None => r == Err::<(), Error>(Error::Invalid) && final(out)@ == old(out)@,
        },
{
    let si = ad.stc_sound_to_index(&v.name)?;
    let (ni, pos) = match &v.at_node {
        Some(a) => (ad.node_to_index(&a.name)?, a.pos),
        None => (0u16, Vec3 { x: 0, y: 0, z: 0 }),
    };
    let fs = vec![Fld::U16(si), Fld::U16(ni), Fld::U32(pos.x), Fld::U32(pos.y), Fld::U32(pos.z)];
    proof {
        assert(fields_view(fs@) =~= to_fields(ad@, v.deep_view()).unwrap());
    }
    encode_record(&fs, out);
    Ok(())
}

/// Reading a written record gives the event back.
pub proof fn lemma_parse_serialize(ad: AnimDefV, v: Sound<Seq<u8>>)
    requires
        serialize(ad, v) is Some,
    ensures
        parse(ad, serialize(ad, v).unwrap()) == Some(v),
{
    let f = to_fields(ad, v).unwrap();
    assert(conforms_all(f, layout()));
    lemma_decode_encode(f, layout());
    lemma_encode_size(f, layout());
    reveal_with_fuel(size, 6);
    lemma_name_at_index_of(ad.static_sounds, v.name);
    if let Some(a) = v.at_node {
        lemma_name_at_index_of(ad.nodes, a.name);
    }
}

/// Writing an event that was read, then reading it again, gives the same
/// event.
pub proof fn lemma_reread(ad: AnimDefV, s: Seq<u8>)
    requires
        parse(ad, s) is Some,
    ensures
        serialize(ad, parse(ad, s).unwrap()) matches Some(b) && parse(ad, b) == parse(ad, s),
{
    let f = decode(layout(), s);
    lemma_index_of_some(ad.static_sounds, w16(f, 0) as int);
    if w16(f, 1) != 0 {
        lemma_index_of_some(ad.nodes, w16(f, 1) as int);
    }
    lemma_parse_serialize(ad, parse(ad, s).unwrap());
}

/// Writing the event of a record gives the record back, where no list of
/// names holds a name twice and the record has no `-0.0` where only a zero
/// is checked.
pub proof fn lemma_serialize_parse(ad: AnimDefV, s: Seq<u8>)
    requires
        parse(ad, s) is Some,
        unique_names(ad.static_sounds),
        unique_names(ad.nodes),
        exact(decode(layout(), s)),
    ensures
        serialize(ad, parse(ad, s).unwrap()) == Some(s),
{
    let f = decode(layout(), s);
    reveal_with_fuel(size, 6);
    lemma_decode_conforms(layout(), s);
    lemma_encode_decode(layout(), s);
    lemma_index_of_name_at(ad.static_sounds, w16(f, 0) as int);
    if w16(f, 1) != 0 {
        lemma_index_of_name_at(ad.nodes, w16(f, 1) as int);
    }
    lemma_conforming_fields(f, layout());
    assert(to_fields(ad, parse(ad, s).unwrap()).unwrap() =~= f);
}

/// A record that is written has the record's size.
pub proof fn lemma_written_size(ad: AnimDefV, v: Sound<Seq<u8>>)
    requires
        serialize(ad, v) is Some,
    ensures
        serialize(ad, v).unwrap().len() == SIZE,
{
    let g = to_fields(ad, v).unwrap();
    assert(conforms_all(g, layout()));
    lemma_encode_size(g, layout());
    reveal_with_fuel(size, 6);
}

/// The record is written back exactly as read: see `exact`.
pub open spec fn exact_record(ad: AnimDefV, s: Seq<u8>) -> bool {
    exact(decode(layout(), s))
}

/// Writing the event of a record gives the record back, where the static sounds
/// and the nodes of the definition are distinct and the record is written back
/// exactly.
pub proof fn lemma_exact(ad: AnimDefV, s: Seq<u8>)
    requires
        parse(ad, s) is Some,
        crate::anim_def::unique_names(ad.static_sounds),
        crate::anim_def::unique_names(ad.nodes),
        exact_record(ad, s),
    ensures
        serialize(ad, parse(ad, s).unwrap()) == Some(s),
{
    lemma_serialize_parse(ad, s);
}

/// The offset of each field of the record.
proof fn lemma_offsets()
    ensures
        size(layout().take(0)) == 0,
        size(layout().take(1)) == 2,
        size(layout().take(2)) == 4,
        size(layout().take(3)) == 8,
        size(layout().take(4)) == 12,
{
    reveal_with_fuel(size, 6);
    assert(layout().take(0) =~= Seq::<Kind>::empty());
    assert(layout().take(1) =~= seq![Kind::U16]);
    assert(layout().take(2) =~= seq![Kind::U16, Kind::U16]);
    assert(layout().take(3) =~= seq![Kind::U16, Kind::U16, Kind::U32]);
    assert(layout().take(4) =~= seq![Kind::U16, Kind::U16, Kind::U32, Kind::U32]);
}

/// An event read from a record holds the record's numbers, little-endian:
/// its sound is the one that the two-byte number at offset 0 refers to; it
/// plays at no node where the two-byte number at offset 2 is zero, and
/// otherwise at the node that number refers to, at the position of the
/// three numbers at offsets 4, 8 and 12.
pub proof fn lemma_read_bytes(ad: AnimDefV, s: Seq<u8>)
    requires
        parse(ad, s) is Some,
    ensures
        ({
            let v = parse(ad, s).unwrap();
            &&& name_at(ad.static_sounds, crate::record::le16_at(s, 0) as int) == Some(v.name)
            &&& (v.at_node is None <==> crate::record::le16_at(s, 2) == 0)
            &&& v.at_node matches Some(a) ==> {
                &&& name_at(ad.nodes, crate::record::le16_at(s, 2) as int) == Some(a.name)
                &&& a.pos == Vec3 {
                    x: crate::record::le32_at(s, 4),
                    y: crate::record::le32_at(s, 8),
                    z: crate::record::le32_at(s, 12),
                }
            }
        }),
{
    lemma_offsets();
    crate::record::lemma_numbers_at(layout(), s, 0);
    crate::record::lemma_numbers_at(layout(), s, 1);
    crate::record::lemma_numbers_at(layout(), s, 2);
    crate::record::lemma_numbers_at(layout(), s, 3);
    crate::record::lemma_numbers_at(layout(), s, 4);
}

/// The record written for an event holds, little-endian, at offset 0 a
/// two-byte number that refers to its sound; at offset 2 zero where it plays
/// at no node, and otherwise a two-byte number that refers to its node,
/// followed by its position as three numbers.
pub proof fn lemma_written_bytes(ad: AnimDefV, v: Sound<Seq<u8>>)
    requires
        serialize(ad, v) is Some,
    ensures
        ({
            let b = serialize(ad, v).unwrap();
            &&& name_at(ad.static_sounds, crate::record::le16_at(b, 0) as int) == Some(v.name)
            &&& (v.at_node is None <==> crate::record::le16_at(b, 2) == 0)
            &&& v.at_node matches Some(a) ==> {
                &&& name_at(ad.nodes, crate::record::le16_at(b, 2) as int) == Some(a.name)
                &&& crate::record::le32_at(b, 4) == a.pos.x
                &&& crate::record::le32_at(b, 8) == a.pos.y
                &&& crate::record::le32_at(b, 12) == a.pos.z
            }
        }),
{
    let g = to_fields(ad, v).unwrap();
    assert(conforms_all(g, layout())) by {
        assert forall|k: int| 0 <= k < g.len() implies #[trigger] crate::record::conforms(
            g[k],
            layout()[k],
        ) by {}
    }
    lemma_offsets();
    crate::anim_def::lemma_name_at_index_of(ad.static_sounds, v.name);
    if let Some(a) = v.at_node {
        crate::anim_def::lemma_name_at_index_of(ad.nodes, a.name);
    }
    crate::record::lemma_numbers_written(g, layout(), 0);
    crate::record::lemma_numbers_written(g, layout(), 1);
    crate::record::lemma_numbers_written(g, layout(), 2);
    crate::record::lemma_numbers_written(g, layout(), 3);
    crate::record::lemma_numbers_written(g, layout(), 4);
}

} // verus!
