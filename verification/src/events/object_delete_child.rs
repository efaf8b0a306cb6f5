//! `OBJECT_DELETE_CHILD` (16): detaches a node from its parent.
use vstd::prelude::*;
use crate::anim_def::{index_of, lemma_name_reread, name_at, AnimDef, AnimDefV};
use crate::error::Error;
use crate::record::{
    conforms_all, decode, decode_record, encode, encode_record, fields_view, get_u16,
    lemma_decode_encode, lemma_encode_size, size, w16, FieldV, Fld, Kind,
};

use crate::anim_def::{lemma_index_of_name_at};
use crate::record::{lemma_conforming_fields, lemma_encode_decode, lemma_decode_conforms};
verus! {

/// An `OBJECT_DELETE_CHILD` event.
#[derive(Debug)]
pub struct ObjectDeleteChild<N> {
    pub parent: N,
    pub child: N,
}

impl DeepView for ObjectDeleteChild<Vec<u8>> {
    type V = ObjectDeleteChild<Seq<u8>>;

    open spec fn deep_view(&self) -> ObjectDeleteChild<Seq<u8>> {
        ObjectDeleteChild { parent: self.parent@, child: self.child@ }
    }
}

/// Size of the record.
pub const SIZE: u32 = 4;

/// Fields: parent index, child index.
pub open spec fn layout() -> Seq<Kind> {
    seq![Kind::U16, Kind::U16]
}

fn layout_exec() -> (r: Vec<Kind>)
    ensures
        r@ == layout(),
        size(layout()) == SIZE,
{
    let r = vec![Kind::U16, Kind::U16];
    proof {
        assert(r@ =~= layout());
        reveal_with_fuel(size, 3);
    }
    r
}

/// The event that the fields of a record describe, if they describe one.
pub open spec fn from_fields(ad: AnimDefV, f: Seq<FieldV>) -> Option<ObjectDeleteChild<Seq<u8>>> {
    match (name_at(ad.nodes, w16(f, 0) as int), name_at(ad.nodes, w16(f, 1) as int)) {
        (Some(parent), Some(child)) => Some(ObjectDeleteChild { parent, child }),
        _ => None,
    }
}

/// The fields of the record of an event, if it can be written.
pub open spec fn to_fields(ad: AnimDefV, v: ObjectDeleteChild<Seq<u8>>) -> Option<Seq<FieldV>> {
    match (index_of(ad.nodes, v.parent), index_of(ad.nodes, v.child)) {
        (Some(p), Some(c)) => Some(seq![FieldV::U16(p as u16), FieldV::U16(c as u16)]),
        _ => None,
    }
}

/// The event that a record holds, if it holds one.
pub open spec fn parse(ad: AnimDefV, s: Seq<u8>) -> Option<ObjectDeleteChild<Seq<u8>>> {
    if s.len() == SIZE {
        from_fields(ad, decode(layout(), s))
    } else {
        None
    }
}

/// The record of an event, if it can be written.
pub open spec fn serialize(ad: AnimDefV, v: ObjectDeleteChild<Seq<u8>>) -> Option<Seq<u8>> {
    match to_fields(ad, v) {
        Some(f) => Some(encode(f)),
        None => None,
    }
}

/// Reads an `OBJECT_DELETE_CHILD` record.
pub fn read(data: &[u8], ad: &AnimDef) -> (r: Result<ObjectDeleteChild<Vec<u8>>, Error>)
    ensures
        match parse(ad@, data@) {
            Some(v) => r matches Ok(x) && x.deep_view() == v,
            None => r == Err::<ObjectDeleteChild<Vec<u8>>, Error>(Error::Invalid),
        },
{
    if data.len() != 4 {
        return Err(Error::Invalid);
    }
    let l = layout_exec();
    let f = decode_record(data, l.as_slice());
    let parent = ad.node_from_index(get_u16(&f, 0) as u32)?;
    let child = ad.node_from_index(get_u16(&f, 1) as u32)?;
    Ok(ObjectDeleteChild { parent, child })
}

/// Writes an `OBJECT_DELETE_CHILD` record.
pub fn write(v: &ObjectDeleteChild<Vec<u8>>, ad: &AnimDef, out: &mut Vec<u8>) -> (r: Result<
    (),
    Error,
>)
    ensures
        match serialize(ad@, v.deep_view()) {
            Some(b) => r is Ok && final(out)@ == old(out)@ + b,
            None => r == Err::<(), Error>(Error::Invalid) && final(out)@ == old(out)@,
        },
{
    let p = ad.node_to_index(&v.parent)?;
    let c = ad.node_to_index(&v.child)?;
    let fs = vec![Fld::U16(p), Fld::U16(c)];
    proof {
        assert(fields_view(fs@) =~= to_fields(ad@, v.deep_view()).unwrap());
    }
    encode_record(&fs, out);
    Ok(())
}

/// Writing an event that was read, then reading it again, gives the same
/// event.
pub proof fn lemma_reread(ad: AnimDefV, s: Seq<u8>)
    requires
        parse(ad, s) is Some,
    ensures
        serialize(ad, parse(ad, s).unwrap()) matches Some(b) && parse(ad, b) == parse(ad, s),
{
    let f = decode(layout(), s);
    lemma_name_reread(ad.nodes, w16(f, 0) as int);
    lemma_name_reread(ad.nodes, w16(f, 1) as int);
    let g = to_fields(ad, parse(ad, s).unwrap()).unwrap();
    assert(conforms_all(g, layout()));
    lemma_decode_encode(g, layout());
    lemma_encode_size(g, layout());
    reveal_with_fuel(size, 3);
}

/// A record that is written has the record's size.
pub proof fn lemma_written_size(ad: AnimDefV, v: ObjectDeleteChild<Seq<u8>>)
    requires
        serialize(ad, v) is Some,
    ensures
        serialize(ad, v).unwrap().len() == SIZE,
{
    let g = to_fields(ad, v).unwrap();
    assert(conforms_all(g, layout()));
    lemma_encode_size(g, layout());
    reveal_with_fuel(size, 3);
}

/// The record is written back exactly as read: always.
pub open spec fn exact_record(ad: AnimDefV, s: Seq<u8>) -> bool {
    true
}

/// Writing the event of a record gives the record back, where the nodes of the
/// definition are distinct and the record is written back exactly.
pub proof fn lemma_exact(ad: AnimDefV, s: Seq<u8>)
    requires
        parse(ad, s) is Some,
        crate::anim_def::unique_names(ad.nodes),
        exact_record(ad, s),
    ensures
        serialize(ad, parse(ad, s).unwrap()) == Some(s),
{
    let f = decode(layout(), s);
    reveal_with_fuel(size, 3);
    lemma_decode_conforms(layout(), s);
    lemma_encode_decode(layout(), s);
    lemma_conforming_fields(f, layout());
    lemma_index_of_name_at(ad.nodes, w16(f, 0) as int);
    lemma_index_of_name_at(ad.nodes, w16(f, 1) as int);
    assert(to_fields(ad, parse(ad, s).unwrap()).unwrap() =~= f);
}

/// The offset of each field of the record.
proof fn lemma_offsets()
    ensures
        size(layout().take(0)) == 0,
        size(layout().take(1)) == 2,
{
    reveal_with_fuel(size, 3);
    assert(layout().take(0) =~= Seq::<Kind>::empty());
    assert(layout().take(1) =~= seq![Kind::U16]);
}

/// An event read from a record holds the record's numbers, little-endian:
/// its parent is the node that the two-byte number at offset 0 refers to,
/// and its child the node that the one at offset 2 refers to.
pub proof fn lemma_read_bytes(ad: AnimDefV, s: Seq<u8>)
    requires
        parse(ad, s) is Some,
    ensures
        name_at(ad.nodes, crate::record::le16_at(s, 0) as int) == Some(parse(ad, s).unwrap().parent),
        name_at(ad.nodes, crate::record::le16_at(s, 2) as int) == Some(parse(ad, s).unwrap().child),
{
    lemma_offsets();
    crate::record::lemma_numbers_at(layout(), s, 0);
    crate::record::lemma_numbers_at(layout(), s, 1);
}

/// The record written for an event holds, little-endian, at offset 0 a
/// two-byte number that refers to its parent, and at offset 2 one that
/// refers to its child.
pub proof fn lemma_written_bytes(ad: AnimDefV, v: ObjectDeleteChild<Seq<u8>>)
    requires
        serialize(ad, v) is Some,
    ensures
        name_at(ad.nodes, crate::record::le16_at(serialize(ad, v).unwrap(), 0) as int) == Some(v.parent),
        name_at(ad.nodes, crate::record::le16_at(serialize(ad, v).unwrap(), 2) as int) == Some(v.child),
{
    let g = to_fields(ad, v).unwrap();
    assert(conforms_all(g, layout())) by {
        assert forall|k: int| 0 <= k < g.len() implies #[trigger] crate::record::conforms(
            g[k],
            layout()[k],
        ) by {}
    }
    lemma_offsets();
    crate::anim_def::lemma_name_at_index_of(ad.nodes, v.parent);
    crate::anim_def::lemma_name_at_index_of(ad.nodes, v.child);
    crate::record::lemma_numbers_written(g, layout(), 0);
    crate::record::lemma_numbers_written(g, layout(), 1);
}

} // verus!
