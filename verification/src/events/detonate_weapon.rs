//! `DETONATE_WEAPON` (41): detonates a weapon at a node, or at the input
//! node.
use vstd::prelude::*;
use crate::anim_def::{
    lemma_node_or_input_reread, node_or_input, node_or_input_index, AnimDef, AnimDefV,
};
use crate::error::Error;
use crate::model::{AtNode, Vec3};
use crate::record::{
    conforms_all, decode, decode_record, encode, encode_record, fields_view, get_bytes, get_u16,
    get_u32, lemma_decode_conforms, lemma_decode_encode, lemma_encode_size, size, w16, w32, wbytes,
    FieldV, Fld, Kind,
};
use crate::text::{lemma_pad_unpad, lemma_unpad_pad, pad, pad_exec, unpad, unpad_exec};

use crate::anim_def::{lemma_node_or_input_exact};
use crate::record::{lemma_conforming_fields, lemma_encode_decode};
verus! {

/// A `DETONATE_WEAPON` event.
#[derive(Debug)]
pub struct DetonateWeapon<N> {
    pub weapon: N,
    pub at_node: AtNode<N>,
}

impl DeepView for DetonateWeapon<Vec<u8>> {
    type V = DetonateWeapon<Seq<u8>>;

    open spec fn deep_view(&self) -> DetonateWeapon<Seq<u8>> {
        DetonateWeapon { weapon: self.weapon@, at_node: self.at_node.deep_view() }
    }
}

/// Size of the record.
pub const SIZE: u32 = 24;

/// The node index that stands for the input node (`-200`).
pub const INPUT: u32 = 0xFF38;

/// Fields: weapon name (10 bytes), node index, position.
pub open spec fn layout() -> Seq<Kind> {
    seq![Kind::Bytes(10), Kind::U16, Kind::U32, Kind::U32, Kind::U32]
}

fn layout_exec() -> (r: Vec<Kind>)
    ensures
        r@ == layout(),
        size(layout()) == SIZE,
{
    let r = vec![Kind::Bytes(10), Kind::U16, Kind::U32, Kind::U32, Kind::U32];
    proof {
        assert(r@ =~= layout());
        reveal_with_fuel(size, 6);
    }
    r
}

/// The event that the fields of a record describe, if they describe one.
pub open spec fn from_fields(ad: AnimDefV, f: Seq<FieldV>) -> Option<DetonateWeapon<Seq<u8>>> {
    match (unpad(wbytes(f, 0)), node_or_input(ad, w16(f, 1) as int, INPUT as int)) {
        (Some(weapon), Some(node)) => Some(
            DetonateWeapon {
                weapon,
                at_node: AtNode { name: node, pos: Vec3 { x: w32(f, 2), y: w32(f, 3), z: w32(f, 4) } },
            },
        ),
        _ => None,
    }
}

/// The fields of the record of an event, if it can be written.
pub open spec fn to_fields(ad: AnimDefV, v: DetonateWeapon<Seq<u8>>) -> Option<Seq<FieldV>> {
    match (pad(v.weapon, 10), node_or_input_index(ad, v.at_node.name, INPUT as int)) {
        (Some(wb), Some(ni)) => Some(
            seq![
                FieldV::Bytes(wb),
                FieldV::U16(ni as u16),
                FieldV::U32(v.at_node.pos.x),
                FieldV::U32(v.at_node.pos.y),
                FieldV::U32(v.at_node.pos.z),
            ],
        ),
        _ => None,
    }
}

/// The event that a record holds, if it holds one.
pub open spec fn parse(ad: AnimDefV, s: Seq<u8>) -> Option<DetonateWeapon<Seq<u8>>> {
    if s.len() == SIZE {
        from_fields(ad, decode(layout(), s))
    } else {
        None
    }
}

/// The record of an event, if it can be written.
pub open spec fn serialize(ad: AnimDefV, v: DetonateWeapon<Seq<u8>>) -> Option<Seq<u8>> {
    match to_fields(ad, v) {
        Some(f) => Some(encode(f)),
        None => None,
    }
}

/// Reads a `DETONATE_WEAPON` record.
pub fn read(data: &[u8], ad: &AnimDef) -> (r: Result<DetonateWeapon<Vec<u8>>, Error>)
    ensures
        match parse(ad@, data@) {
            Some(v) => r matches Ok(x) && x.deep_view() == v,
            None => r == Err::<DetonateWeapon<Vec<u8>>, Error>(Error::Invalid),
        },
{
    if data.len() != 24 {
        return Err(Error::Invalid);
    }
    let l = layout_exec();
    let f = decode_record(data, l.as_slice());
    let weapon = match unpad_exec(get_bytes(&f, 0)) {
        Some(n) => n,
        None => return Err(Error::Invalid),
    };
    let node = ad.node_or_input_from_index(get_u16(&f, 1) as u32, INPUT)?;
    let pos = Vec3 { x: get_u32(&f, 2), y: get_u32(&f, 3), z: get_u32(&f, 4) };
    Ok(DetonateWeapon { weapon, at_node: AtNode { name: node, pos } })
}

/// Writes a `DETONATE_WEAPON` record.
pub fn write(v: &DetonateWeapon<Vec<u8>>, ad: &AnimDef, out: &mut Vec<u8>) -> (r: Result<
    (),
    Error,
>)
    ensures
        match serialize(ad@, v.deep_view()) {
            Some(b) => r is Ok && final(out)@ == old(out)@ + b,
            None => r == Err::<(), Error>(Error::Invalid) && final(out)@ == old(out)@,
        },
{
    let wb = match pad_exec(&v.weapon, 10) {
        Some(b) => b,
        None => return Err(Error::Invalid),
    };
    let ni = ad.node_or_input_to_index(&v.at_node.name, INPUT)?;
    let p = v.at_node.pos;
    let ghost wbv = wb@;
    let fs = vec![Fld::Bytes(wb), Fld::U16(ni as u16), Fld::U32(p.x), Fld::U32(p.y), Fld::U32(p.z)];
    proof {
        assert(fields_view(fs@) =~= to_fields(ad@, v.deep_view()).unwrap());
    }
    encode_record(&fs, out);
    Ok(())
}

/// Writing an event that was read, then reading it again, gives the same
/// event.
pub proof fn lemma_reread(ad: AnimDefV, s: Seq<u8>)
    requires
        parse(ad, s) is Some,
    ensures
        serialize(ad, parse(ad, s).unwrap()) matches Some(b) && parse(ad, b) == parse(ad, s),
{
    let f = decode(layout(), s);
    reveal_with_fuel(size, 6);
    lemma_decode_conforms(layout(), s);
    assert(crate::record::conforms(f[0], layout()[0]));
    lemma_pad_unpad(wbytes(f, 0));
    lemma_node_or_input_reread(ad, w16(f, 1) as int, INPUT as int);
    let v = parse(ad, s).unwrap();
    let g = to_fields(ad, v).unwrap();
    assert(conforms_all(g, layout()));
    lemma_decode_encode(g, layout());
    lemma_encode_size(g, layout());
    lemma_unpad_pad(v.weapon, 10);
}

/// A record that is written has the record's size.
pub proof fn lemma_written_size(ad: AnimDefV, v: DetonateWeapon<Seq<u8>>)
    requires
        serialize(ad, v) is Some,
    ensures
        serialize(ad, v).unwrap().len() == SIZE,
{
    let g = to_fields(ad, v).unwrap();
    assert(conforms_all(g, layout()));
    lemma_encode_size(g, layout());
    reveal_with_fuel(size, 6);
}

/// The record is written back exactly as read: always.
pub open spec fn exact_record(ad: AnimDefV, s: Seq<u8>) -> bool {
    true
}

/// Writing the event of a record gives the record back, where the nodes of the
/// definition are distinct and none bears the input node's name and the record
/// is written back exactly.
pub proof fn lemma_exact(ad: AnimDefV, s: Seq<u8>)
    requires
        parse(ad, s) is Some,
        crate::anim_def::distinct_nodes(ad),
        exact_record(ad, s),
    ensures
        serialize(ad, parse(ad, s).unwrap()) == Some(s),
{
    let f = decode(layout(), s);
    reveal_with_fuel(size, 6);
    lemma_decode_conforms(layout(), s);
    lemma_encode_decode(layout(), s);
    lemma_conforming_fields(f, layout());
    crate::text::lemma_pad_unpad(wbytes(f, 0));
    lemma_node_or_input_exact(ad, w16(f, 1) as int, INPUT as int);
    assert(to_fields(ad, parse(ad, s).unwrap()).unwrap() =~= f);
}

/// The offset of each field of the record.
proof fn lemma_offsets()
    ensures
        size(layout().take(0)) == 0,
        size(layout().take(1)) == 10,
        size(layout().take(2)) == 12,
        size(layout().take(3)) == 16,
        size(layout().take(4)) == 20,
{
    reveal_with_fuel(size, 6);
    assert(layout().take(0) =~= Seq::<Kind>::empty());
    assert(layout().take(1) =~= seq![Kind::Bytes(10)]);
    assert(layout().take(2) =~= seq![Kind::Bytes(10), Kind::U16]);
    assert(layout().take(3) =~= seq![Kind::Bytes(10), Kind::U16, Kind::U32]);
    assert(layout().take(4) =~= seq![Kind::Bytes(10), Kind::U16, Kind::U32, Kind::U32]);
}

/// An event read from a record holds the record's bytes and numbers,
/// little-endian: its weapon is the name in the first 10 bytes, its node
/// the one that the two-byte number at offset 10 refers to, and its
/// position the three numbers at offsets 12, 16 and 20.
pub proof fn lemma_read_bytes(ad: AnimDefV, s: Seq<u8>)
    requires
        parse(ad, s) is Some,
    ensures
        ({
            let v = parse(ad, s).unwrap();
            &&& unpad(s.subrange(0, 10)) == Some(v.weapon)
            &&& node_or_input(ad, crate::record::le16_at(s, 10) as int, INPUT as int) == Some(
                v.at_node.name,
            )
            &&& v.at_node.pos == Vec3 {
                x: crate::record::le32_at(s, 12),
                y: crate::record::le32_at(s, 16),
                z: crate::record::le32_at(s, 20),
            }
        }),
{
    lemma_offsets();
    crate::record::lemma_decode_field(layout(), s, 0);
    crate::record::lemma_numbers_at(layout(), s, 1);
    crate::record::lemma_numbers_at(layout(), s, 2);
    crate::record::lemma_numbers_at(layout(), s, 3);
    crate::record::lemma_numbers_at(layout(), s, 4);
}

/// The record written for an event holds, little-endian, its weapon in the
/// first 10 bytes and its position as the three numbers at offsets 12, 16
/// and 20.
pub proof fn lemma_written_bytes(ad: AnimDefV, v: DetonateWeapon<Seq<u8>>)
    requires
        serialize(ad, v) is Some,
    ensures
        ({
            let b = serialize(ad, v).unwrap();
            &&& unpad(b.subrange(0, 10)) == Some(v.weapon)
            &&& crate::record::le32_at(b, 12) == v.at_node.pos.x
            &&& crate::record::le32_at(b, 16) == v.at_node.pos.y
            &&& crate::record::le32_at(b, 20) == v.at_node.pos.z
        }),
{
    let g = to_fields(ad, v).unwrap();
    assert(pad(v.weapon, 10).unwrap().len() == 10);
    assert(conforms_all(g, layout())) by {
        assert forall|k: int| 0 <= k < g.len() implies #[trigger] crate::record::conforms(
            g[k],
            layout()[k],
        ) by {}
    }
    lemma_offsets();
    crate::text::lemma_unpad_pad(v.weapon, 10);
    crate::record::lemma_encode_size(g, layout());
    crate::record::lemma_decode_encode(g, layout());
    crate::record::lemma_decode_field(layout(), encode(g), 0);
    crate::record::lemma_numbers_written(g, layout(), 2);
    crate::record::lemma_numbers_written(g, layout(), 3);
    crate::record::lemma_numbers_written(g, layout(), 4);
}

} // verus!
