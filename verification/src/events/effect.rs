//! `EFFECT` (3): starts an effect at a node, or at the input node.
use vstd::prelude::*;
use crate::anim_def::{
    index_of, lemma_name_reread, lemma_node_or_input_reread, name_at, node_or_input,
    node_or_input_index, AnimDef, AnimDefV,
};
use crate::error::Error;
use crate::model::{AtNode, Vec3};
use crate::record::{
    conforms_all, decode, decode_record, encode, encode_record, fields_view, get_u16, get_u32,
    lemma_decode_encode, lemma_encode_size, size, w16, w32, FieldV, Fld, Kind,
};

use crate::anim_def::{lemma_index_of_name_at, lemma_node_or_input_exact};
use crate::record::{lemma_conforming_fields, lemma_encode_decode, lemma_decode_conforms};
verus! {

/// An `EFFECT` event.
#[derive(Debug)]
pub struct Effect<N> {
    pub name: N,
    pub at_node: AtNode<N>,
}

impl DeepView for Effect<Vec<u8>> {
    type V = Effect<Seq<u8>>;

    open spec fn deep_view(&self) -> Effect<Seq<u8>> {
        Effect { name: self.name@, at_node: self.at_node.deep_view() }
    }
}

/// Size of the record.
pub const SIZE: u32 = 16;

/// The node index that stands for the input node (`-200`).
pub const INPUT: u32 = 0xFF38;

/// Fields: effect index, node index, position.
pub open spec fn layout() -> Seq<Kind> {
    seq![Kind::U16, Kind::U16, Kind::U32, Kind::U32, Kind::U32]
}

fn layout_exec() -> (r: Vec<Kind>)
    ensures
        r@ == layout(),
        size(layout()) == SIZE,
{
    let r = vec![Kind::U16, Kind::U16, Kind::U32, Kind::U32, Kind::U32];
    proof {
        assert(r@ =~= layout());
        reveal_with_fuel(size, 6);
    }
    r
}

/// The event that the fields of a record describe, if they describe one.
pub open spec fn from_fields(ad: AnimDefV, f: Seq<FieldV>) -> Option<Effect<Seq<u8>>> {
    match (name_at(ad.effects, w16(f, 0) as int), node_or_input(ad, w16(f, 1) as int, INPUT as int)) {
        (Some(name), Some(node)) => Some(
            Effect {
                name,
                at_node: AtNode { name: node, pos: Vec3 { x: w32(f, 2), y: w32(f, 3), z: w32(f, 4) } },
            },
        ),
        _ => None,
    }
}

/// The fields of the record of an event, if it can be written.
pub open spec fn to_fields(ad: AnimDefV, v: Effect<Seq<u8>>) -> Option<Seq<FieldV>> {
    match (index_of(ad.effects, v.name), node_or_input_index(ad, v.at_node.name, INPUT as int)) {
        (Some(ei), Some(ni)) => Some(
            seq![
                FieldV::U16(ei as u16),
                FieldV::U16(ni as u16),
                FieldV::U32(v.at_node.pos.x),
                FieldV::U32(v.at_node.pos.y),
                FieldV::U32(v.at_node.pos.z),
            ],
        ),
        _ => None,
    }
}

/// The event that a record holds, if it holds one.
pub open spec fn parse(ad: AnimDefV, s: Seq<u8>) -> Option<Effect<Seq<u8>>> {
    if s.len() == SIZE {
        from_fields(ad, decode(layout(), s))
    } else {
        None
    }
}

/// The record of an event, if it can be written.
pub open spec fn serialize(ad: AnimDefV, v: Effect<Seq<u8>>) -> Option<Seq<u8>> {
    match to_fields(ad, v) {
        Some(f) => Some(encode(f)),
        None => None,
    }
}

/// Reads an `EFFECT` record.
pub fn read(data: &[u8], ad: &AnimDef) -> (r: Result<Effect<Vec<u8>>, Error>)
    ensures
        match parse(ad@, data@) {
            Some(v) => r matches Ok(x) && x.deep_view() == v,
            None => r == Err::<Effect<Vec<u8>>, Error>(Error::Invalid),
        },
{
    if data.len() != 16 {
        return Err(Error::Invalid);
    }
    let l = layout_exec();
    let f = decode_record(data, l.as_slice());
    let name = ad.effect_from_index(get_u16(&f, 0) as u32)?;
    let node = ad.node_or_input_from_index(get_u16(&f, 1) as u32, INPUT)?;
    let pos = Vec3 { x: get_u32(&f, 2), y: get_u32(&f, 3), z: get_u32(&f, 4) };
    Ok(Effect { name, at_node: AtNode { name: node, pos } })
}

/// Writes an `EFFECT` record.
pub fn write(v: &Effect<Vec<u8>>, ad: &AnimDef, out: &mut Vec<u8>) -> (r: Result<(), Error>)
    ensures
        match serialize(ad@, v.deep_view()) {
            Some(b) => r is Ok && final(out)@ == old(out)@ + b,
            None => r == Err::<(), Error>(Error::Invalid) && final(out)@ == old(out)@,
        },
{
    let ei = ad.effect_to_index(&v.name)?;
    let ni = ad.node_or_input_to_index(&v.at_node.name, INPUT)?;
    let p = v.at_node.pos;
    let fs = vec![Fld::U16(ei), Fld::U16(ni as u16), Fld::U32(p.x), Fld::U32(p.y), Fld::U32(p.z)];
    proof {
        assert(fields_view(fs@) =~= to_fields(ad@, v.deep_view()).unwrap());
    }
    encode_record(&fs, out);
    Ok(())
}

/// Writing an event that was read, then reading it again, gives the same
/// event.
pub proof fn lemma_reread(ad: AnimDefV, s: Seq<u8>)
    requires
        parse(ad, s) is Some,
    ensures
        serialize(ad, parse(ad, s).unwrap()) matches Some(b) && parse(ad, b) == parse(ad, s),
{
    let f = decode(layout(), s);
    lemma_name_reread(ad.effects, w16(f, 0) as int);
    lemma_node_or_input_reread(ad, w16(f, 1) as int, INPUT as int);
    let g = to_fields(ad, parse(ad, s).unwrap()).unwrap();
    assert(conforms_all(g, layout()));
    lemma_decode_encode(g, layout());
    lemma_encode_size(g, layout());
    reveal_with_fuel(size, 6);
}

/// A record that is written has the record's size.
pub proof fn lemma_written_size(ad: AnimDefV, v: Effect<Seq<u8>>)
    requires
        serialize(ad, v) is Some,
    ensures
        serialize(ad, v).unwrap().len() == SIZE,
{
    let g = to_fields(ad, v).unwrap();
    assert(conforms_all(g, layout()));
    lemma_encode_size(g, layout());
    reveal_with_fuel(size, 6);
}

/// The record is written back exactly as read: always.
pub open spec fn exact_record(ad: AnimDefV, s: Seq<u8>) -> bool {
    true
}

/// Writing the event of a record gives the record back, where the effects and
/// the nodes of the definition are distinct and no node bears the input node's
/// name and the record is written back exactly.
pub proof fn lemma_exact(ad: AnimDefV, s: Seq<u8>)
    requires
        parse(ad, s) is Some,
        crate::anim_def::unique_names(ad.effects),
        crate::anim_def::distinct_nodes(ad),
        exact_record(ad, s),
    ensures
        serialize(ad, parse(ad, s).unwrap()) == Some(s),
{
    let f = decode(layout(), s);
    reveal_with_fuel(size, 6);
    lemma_decode_conforms(layout(), s);
    lemma_encode_decode(layout(), s);
    lemma_conforming_fields(f, layout());
    lemma_index_of_name_at(ad.effects, w16(f, 0) as int);
    lemma_node_or_input_exact(ad, w16(f, 1) as int, INPUT as int);
    assert(to_fields(ad, parse(ad, s).unwrap()).unwrap() =~= f);
}

/// The offset of each field of the record.
proof fn lemma_offsets()
    ensures
        size(layout().take(0)) == 0,
        size(layout().take(1)) == 2,
        size(layout().take(2)) == 4,
        size(layout().take(3)) == 8,
        size(layout().take(4)) == 12,
{
    reveal_with_fuel(size, 6);
    assert(layout().take(0) =~= Seq::<Kind>::empty());
    assert(layout().take(1) =~= seq![Kind::U16]);
    assert(layout().take(2) =~= seq![Kind::U16, Kind::U16]);
    assert(layout().take(3) =~= seq![Kind::U16, Kind::U16, Kind::U32]);
    assert(layout().take(4) =~= seq![Kind::U16, Kind::U16, Kind::U32, Kind::U32]);
}

/// An event read from a record holds the record's numbers, little-endian:
/// its effect is the one that the two-byte number at offset 0 refers to,
/// its node the one that the two-byte number at offset 2 refers to, and its
/// position the three numbers at offsets 4, 8 and 12.
pub proof fn lemma_read_bytes(ad: AnimDefV, s: Seq<u8>)
    requires
        parse(ad, s) is Some,
    ensures
        ({
            let v = parse(ad, s).unwrap();
            &&& name_at(ad.effects, crate::record::le16_at(s, 0) as int) == Some(v.name)
            &&& node_or_input(ad, crate::record::le16_at(s, 2) as int, INPUT as int) == Some(
                v.at_node.name,
            )
            &&& v.at_node.pos == Vec3 {
                x: crate::record::le32_at(s, 4),
                y: crate::record::le32_at(s, 8),
                z: crate::record::le32_at(s, 12),
            }
        }),
{
    lemma_offsets();
    crate::record::lemma_numbers_at(layout(), s, 0);
    crate::record::lemma_numbers_at(layout(), s, 1);
    crate::record::lemma_numbers_at(layout(), s, 2);
    crate::record::lemma_numbers_at(layout(), s, 3);
    crate::record::lemma_numbers_at(layout(), s, 4);
}

/// The record written for an event holds, little-endian, at offset 0 a
/// two-byte number that refers to its effect, and its position as the three
/// numbers at offsets 4, 8 and 12.
pub proof fn lemma_written_bytes(ad: AnimDefV, v: Effect<Seq<u8>>)
    requires
        serialize(ad, v) is Some,
    ensures
        ({
            let b = serialize(ad, v).unwrap();
            &&& name_at(ad.effects, crate::record::le16_at(b, 0) as int) == Some(v.name)
            &&& crate::record::le32_at(b, 4) == v.at_node.pos.x
            &&& crate::record::le32_at(b, 8) == v.at_node.pos.y
            &&& crate::record::le32_at(b, 12) == v.at_node.pos.z
        }),
{
    let g = to_fields(ad, v).unwrap();
    assert(conforms_all(g, layout())) by {
        assert forall|k: int| 0 <= k < g.len() implies #[trigger] crate::record::conforms(
            g[k],
            layout()[k],
        ) by {}
    }
    lemma_offsets();
    crate::anim_def::lemma_name_at_index_of(ad.effects, v.name);
    crate::record::lemma_numbers_written(g, layout(), 0);
    crate::record::lemma_numbers_written(g, layout(), 2);
    crate::record::lemma_numbers_written(g, layout(), 3);
    crate::record::lemma_numbers_written(g, layout(), 4);
}

} // verus!
