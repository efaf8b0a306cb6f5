//! `OBJECT_CYCLE_TEXTURE` (17): moves a node to another texture of its
//! cycle.
use vstd::prelude::*;
use crate::anim_def::{index_of, lemma_name_reread, name_at, AnimDef, AnimDefV};
use crate::error::Error;
use crate::record::{
    conforms_all, decode, decode_record, encode, encode_record, fields_view, get_u16, get_u32,
    lemma_decode_encode, lemma_encode_size, size, w16, w32, FieldV, Fld, Kind,
};

use crate::anim_def::{lemma_index_of_name_at};
use crate::record::{lemma_conforming_fields, lemma_encode_decode, lemma_decode_conforms};
verus! {

/// An `OBJECT_CYCLE_TEXTURE` event.
#[derive(Debug)]
pub struct ObjectCycleTexture<N> {
    pub name: N,
    pub reset: u16,
}

impl DeepView for ObjectCycleTexture<Vec<u8>> {
    type V = ObjectCycleTexture<Seq<u8>>;

    open spec fn deep_view(&self) -> ObjectCycleTexture<Seq<u8>> {
        ObjectCycleTexture { name: self.name@, reset: self.reset }
    }
}

/// Size of the record.
pub const SIZE: u32 = 8;

/// Fields: flag (always set), node index, texture to reset to.
pub open spec fn layout() -> Seq<Kind> {
    seq![Kind::U32, Kind::U16, Kind::U16]
}

fn layout_exec() -> (r: Vec<Kind>)
    ensures
        r@ == layout(),
        size(layout()) == SIZE,
{
    let r = vec![Kind::U32, Kind::U16, Kind::U16];
    proof {
        assert(r@ =~= layout());
        reveal_with_fuel(size, 4);
    }
    r
}

/// The event that the fields of a record describe, if they describe one:
/// the flag is set and the texture is one of the first six.
pub open spec fn from_fields(ad: AnimDefV, f: Seq<FieldV>) -> Option<ObjectCycleTexture<Seq<u8>>> {
    if w32(f, 0) != 1 || w16(f, 2) > 5 {
        None
    } else {
        match name_at(ad.nodes, w16(f, 1) as int) {
            Some(name) => Some(ObjectCycleTexture { name, reset: w16(f, 2) }),
            None => None,
        }
    }
}

/// The fields of the record of an event, if it can be written.
pub open spec fn to_fields(ad: AnimDefV, v: ObjectCycleTexture<Seq<u8>>) -> Option<Seq<FieldV>> {
    match index_of(ad.nodes, v.name) {
        Some(ni) => Some(seq![FieldV::U32(1), FieldV::U16(ni as u16), FieldV::U16(v.reset)]),
        None => None,
    }
}

/// The event that a record holds, if it holds one.
pub open spec fn parse(ad: AnimDefV, s: Seq<u8>) -> Option<ObjectCycleTexture<Seq<u8>>> {
    if s.len() == SIZE {
        from_fields(ad, decode(layout(), s))
    } else {
        None
    }
}

/// The record of an event, if it can be written.
pub open spec fn serialize(ad: AnimDefV, v: ObjectCycleTexture<Seq<u8>>) -> Option<Seq<u8>> {
    match to_fields(ad, v) {
        Some(f) => Some(encode(f)),
        None => None,
    }
}

/// Reads an `OBJECT_CYCLE_TEXTURE` record.
pub fn read(data: &[u8], ad: &AnimDef) -> (r: Result<ObjectCycleTexture<Vec<u8>>, Error>)
    ensures
        match parse(ad@, data@) {
            Some(v) => r matches Ok(x) && x.deep_view() == v,
            None => r == Err::<ObjectCycleTexture<Vec<u8>>, Error>(Error::Invalid),
        },
{
    if data.len() != 8 {
        return Err(Error::Invalid);
    }
    let l = layout_exec();
    let f = decode_record(data, l.as_slice());
    let flags = get_u32(&f, 0);
    let reset = get_u16(&f, 2);
    if flags != 1 || reset > 5 {
        return Err(Error::Invalid);
    }
    let name = ad.node_from_index(get_u16(&f, 1) as u32)?;
    Ok(ObjectCycleTexture { name, reset })
}

/// Writes an `OBJECT_CYCLE_TEXTURE` record.
pub fn write(v: &ObjectCycleTexture<Vec<u8>>, ad: &AnimDef, out: &mut Vec<u8>) -> (r: Result<
    (),
    Error,
>)
    ensures
        match serialize(ad@, v.deep_view()) {
            Some(b) => r is Ok && final(out)@ == old(out)@ + b,
            None => r == Err::<(), Error>(Error::Invalid) && final(out)@ == old(out)@,
        },
{
    let ni = ad.node_to_index(&v.name)?;
    let fs = vec![Fld::U32(1), Fld::U16(ni), Fld::U16(v.reset)];
    proof {
        assert(fields_view(fs@) =~= to_fields(ad@, v.deep_view()).unwrap());
    }
    encode_record(&fs, out);
    Ok(())
}

/// Writing an event that was read, then reading it again, gives the same
/// event.
pub proof fn lemma_reread(ad: AnimDefV, s: Seq<u8>)
    requires
        parse(ad, s) is Some,
    ensures
        serialize(ad, parse(ad, s).unwrap()) matches Some(b) && parse(ad, b) == parse(ad, s),
{
    let f = decode(layout(), s);
    lemma_name_reread(ad.nodes, w16(f, 1) as int);
    let g = to_fields(ad, parse(ad, s).unwrap()).unwrap();
    assert(conforms_all(g, layout()));
    lemma_decode_encode(g, layout());
    lemma_encode_size(g, layout());
    reveal_with_fuel(size, 4);
}

/// A record that is written has the record's size.
pub proof fn lemma_written_size(ad: AnimDefV, v: ObjectCycleTexture<Seq<u8>>)
    requires
        serialize(ad, v) is Some,
    ensures
        serialize(ad, v).unwrap().len() == SIZE,
{
    let g = to_fields(ad, v).unwrap();
    assert(conforms_all(g, layout()));
    lemma_encode_size(g, layout());
    reveal_with_fuel(size, 4);
}

/// The record is written back exactly as read: always.
pub open spec fn exact_record(ad: AnimDefV, s: Seq<u8>) -> bool {
    true
}

/// Writing the event of a record gives the record back, where the nodes of the
/// definition are distinct and the record is written back exactly.
pub proof fn lemma_exact(ad: AnimDefV, s: Seq<u8>)
    requires
        parse(ad, s) is Some,
        crate::anim_def::unique_names(ad.nodes),
        exact_record(ad, s),
    ensures
        serialize(ad, parse(ad, s).unwrap()) == Some(s),
{
    let f = decode(layout(), s);
    reveal_with_fuel(size, 4);
    lemma_decode_conforms(layout(), s);
    lemma_encode_decode(layout(), s);
    lemma_conforming_fields(f, layout());
    lemma_index_of_name_at(ad.nodes, w16(f, 1) as int);
    assert(to_fields(ad, parse(ad, s).unwrap()).unwrap() =~= f);
}

/// The offset of each field of the record.
proof fn lemma_offsets()
    ensures
        size(layout().take(0)) == 0,
        size(layout().take(1)) == 4,
        size(layout().take(2)) == 6,
{
    reveal_with_fuel(size, 4);
    assert(layout().take(0) =~= Seq::<Kind>::empty());
    assert(layout().take(1) =~= seq![Kind::U32]);
    assert(layout().take(2) =~= seq![Kind::U32, Kind::U16]);
}

/// An event read from a record holds the record's numbers, little-endian:
/// the number at offset 0 is `1`, its node is the one that the two-byte
/// number at offset 4 refers to, and its reset is the two-byte number at
/// offset 6.
pub proof fn lemma_read_bytes(ad: AnimDefV, s: Seq<u8>)
    requires
        parse(ad, s) is Some,
    ensures
        crate::record::le32_at(s, 0) == 1,
        name_at(ad.nodes, crate::record::le16_at(s, 4) as int) == Some(parse(ad, s).unwrap().name),
        crate::record::le16_at(s, 6) == parse(ad, s).unwrap().reset,
{
    lemma_offsets();
    crate::record::lemma_numbers_at(layout(), s, 0);
    crate::record::lemma_numbers_at(layout(), s, 1);
    crate::record::lemma_numbers_at(layout(), s, 2);
}

/// The record written for an event holds, little-endian, `1` at offset 0,
/// at offset 4 a two-byte number that refers to its node, and its reset at
/// offset 6.
pub proof fn lemma_written_bytes(ad: AnimDefV, v: ObjectCycleTexture<Seq<u8>>)
    requires
        serialize(ad, v) is Some,
    ensures
        crate::record::le32_at(serialize(ad, v).unwrap(), 0) == 1,
        name_at(ad.nodes, crate::record::le16_at(serialize(ad, v).unwrap(), 4) as int) == Some(v.name),
        crate::record::le16_at(serialize(ad, v).unwrap(), 6) == v.reset,
{
    let g = to_fields(ad, v).unwrap();
    assert(conforms_all(g, layout())) by {
        assert forall|k: int| 0 <= k < g.len() implies #[trigger] crate::record::conforms(
            g[k],
            layout()[k],
        ) by {}
    }
    lemma_offsets();
    crate::anim_def::lemma_name_at_index_of(ad.nodes, v.name);
    crate::record::lemma_numbers_written(g, layout(), 0);
    crate::record::lemma_numbers_written(g, layout(), 1);
    crate::record::lemma_numbers_written(g, layout(), 2);
}

} // verus!
