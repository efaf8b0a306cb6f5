//! `OBJECT_SCALE_STATE` (8): sets the scale of a node.
use vstd::prelude::*;
use crate::anim_def::{index_of, lemma_name_reread, name_at, AnimDef, AnimDefV};
use crate::error::Error;
use crate::model::Vec3;
use crate::record::{
    conforms_all, decode, decode_record, encode, encode_record, fields_view, get_u32,
    lemma_decode_encode, lemma_encode_size, size, w32, FieldV, Fld, Kind,
};

use crate::anim_def::{lemma_index_of_name_at};
use crate::record::{lemma_conforming_fields, lemma_encode_decode, lemma_decode_conforms};
verus! {

/// An `OBJECT_SCALE_STATE` event.
#[derive(Debug)]
pub struct ObjectScaleState<N> {
    pub name: N,
    pub state: Vec3,
}

impl DeepView for ObjectScaleState<Vec<u8>> {
    type V = ObjectScaleState<Seq<u8>>;

    open spec fn deep_view(&self) -> ObjectScaleState<Seq<u8>> {
        ObjectScaleState { name: self.name@, state: self.state }
    }
}

/// Size of the record.
pub const SIZE: u32 = 16;

/// Fields: scale, node index (four bytes).
pub open spec fn layout() -> Seq<Kind> {
    seq![Kind::U32, Kind::U32, Kind::U32, Kind::U32]
}

fn layout_exec() -> (r: Vec<Kind>)
    ensures
        r@ == layout(),
        size(layout()) == SIZE,
{
    let r = vec![Kind::U32, Kind::U32, Kind::U32, Kind::U32];
    proof {
        assert(r@ =~= layout());
        reveal_with_fuel(size, 5);
    }
    r
}

/// The event that the fields of a record describe, if they describe one.
pub open spec fn from_fields(ad: AnimDefV, f: Seq<FieldV>) -> Option<ObjectScaleState<Seq<u8>>> {
    match name_at(ad.nodes, w32(f, 3) as int) {
        Some(name) => Some(
            ObjectScaleState { name, state: Vec3 { x: w32(f, 0), y: w32(f, 1), z: w32(f, 2) } },
        ),
        None => None,
    }
}

/// The fields of the record of an event, if it can be written.
pub open spec fn to_fields(ad: AnimDefV, v: ObjectScaleState<Seq<u8>>) -> Option<Seq<FieldV>> {
    match index_of(ad.nodes, v.name) {
        Some(ni) => Some(
            seq![
                FieldV::U32(v.state.x),
                FieldV::U32(v.state.y),
                FieldV::U32(v.state.z),
                FieldV::U32(ni as u32),
            ],
        ),
        None => None,
    }
}

/// The event that a record holds, if it holds one.
pub open spec fn parse(ad: AnimDefV, s: Seq<u8>) -> Option<ObjectScaleState<Seq<u8>>> {
    if s.len() == SIZE {
        from_fields(ad, decode(layout(), s))
    } else {
        None
    }
}

/// The record of an event, if it can be written.
pub open spec fn serialize(ad: AnimDefV, v: ObjectScaleState<Seq<u8>>) -> Option<Seq<u8>> {
    match to_fields(ad, v) {
        Some(f) => Some(encode(f)),
        None => None,
    }
}

/// Reads an `OBJECT_SCALE_STATE` record.
pub fn read(data: &[u8], ad: &AnimDef) -> (r: Result<ObjectScaleState<Vec<u8>>, Error>)
    ensures
        match parse(ad@, data@) {
            Some(v) => r matches Ok(x) && x.deep_view() == v,
            None => r == Err::<ObjectScaleState<Vec<u8>>, Error>(Error::Invalid),
        },
{
    if data.len() != 16 {
        return Err(Error::Invalid);
    }
    let l = layout_exec();
    let f = decode_record(data, l.as_slice());
    let name = ad.node_from_index(get_u32(&f, 3))?;
    Ok(ObjectScaleState { name, state: Vec3 { x: get_u32(&f, 0), y: get_u32(&f, 1), z: get_u32(&f, 2) } })
}

/// Writes an `OBJECT_SCALE_STATE` record.
pub fn write(v: &ObjectScaleState<Vec<u8>>, ad: &AnimDef, out: &mut Vec<u8>) -> (r: Result<
    (),
    Error,
>)
    ensures
        match serialize(ad@, v.deep_view()) {
            Some(b) => r is Ok && final(out)@ == old(out)@ + b,
            None => r == Err::<(), Error>(Error::Invalid) && final(out)@ == old(out)@,
        },
{
    let ni = ad.node_to_index(&v.name)?;
    let p = v.state;
    let fs = vec![Fld::U32(p.x), Fld::U32(p.y), Fld::U32(p.z), Fld::U32(ni as u32)];
    proof {
        assert(fields_view(fs@) =~= to_fields(ad@, v.deep_view()).unwrap());
    }
    encode_record(&fs, out);
    Ok(())
}

/// Writing an event that was read, then reading it again, gives the same
/// event.
pub proof fn lemma_reread(ad: AnimDefV, s: Seq<u8>)
    requires
        parse(ad, s) is Some,
    ensures
        serialize(ad, parse(ad, s).unwrap()) matches Some(b) && parse(ad, b) == parse(ad, s),
{
    let f = decode(layout(), s);
    lemma_name_reread(ad.nodes, w32(f, 3) as int);
    let g = to_fields(ad, parse(ad, s).unwrap()).unwrap();
    assert(conforms_all(g, layout()));
    lemma_decode_encode(g, layout());
    lemma_encode_size(g, layout());
    reveal_with_fuel(size, 5);
}

/// A record that is written has the record's size.
pub proof fn lemma_written_size(ad: AnimDefV, v: ObjectScaleState<Seq<u8>>)
    requires
        serialize(ad, v) is Some,
    ensures
        serialize(ad, v).unwrap().len() == SIZE,
{
    let g = to_fields(ad, v).unwrap();
    assert(conforms_all(g, layout()));
    lemma_encode_size(g, layout());
    reveal_with_fuel(size, 5);
}

/// The record is written back exactly as read: always.
pub open spec fn exact_record(ad: AnimDefV, s: Seq<u8>) -> bool {
    true
}

/// Writing the event of a record gives the record back, where the nodes of the
/// definition are distinct and the record is written back exactly.
pub proof fn lemma_exact(ad: AnimDefV, s: Seq<u8>)
    requires
        parse(ad, s) is Some,
        crate::anim_def::unique_names(ad.nodes),
        exact_record(ad, s),
    ensures
        serialize(ad, parse(ad, s).unwrap()) == Some(s),
{
    let f = decode(layout(), s);
    reveal_with_fuel(size, 5);
    lemma_decode_conforms(layout(), s);
    lemma_encode_decode(layout(), s);
    lemma_conforming_fields(f, layout());
    lemma_index_of_name_at(ad.nodes, w32(f, 3) as int);
    assert(to_fields(ad, parse(ad, s).unwrap()).unwrap() =~= f);
}

/// The offset of each field of the record.
proof fn lemma_offsets()
    ensures
        size(layout().take(0)) == 0,
        size(layout().take(1)) == 4,
        size(layout().take(2)) == 8,
        size(layout().take(3)) == 12,
{
    reveal_with_fuel(size, 5);
    assert(layout().take(0) =~= Seq::<Kind>::empty());
    assert(layout().take(1) =~= seq![Kind::U32]);
    assert(layout().take(2) =~= seq![Kind::U32, Kind::U32]);
    assert(layout().take(3) =~= seq![Kind::U32, Kind::U32, Kind::U32]);
}

/// An event read from a record holds the record's numbers, little-endian:
/// its scale is the three numbers at offsets 0, 4 and 8, and its node the
/// one that the number at offset 12 refers to.
pub proof fn lemma_read_bytes(ad: AnimDefV, s: Seq<u8>)
    requires
        parse(ad, s) is Some,
    ensures
        ({
            let v = parse(ad, s).unwrap();
            &&& v.state == Vec3 {
                x: crate::record::le32_at(s, 0),
                y: crate::record::le32_at(s, 4),
                z: crate::record::le32_at(s, 8),
            }
            &&& name_at(ad.nodes, crate::record::le32_at(s, 12) as int) == Some(v.name)
        }),
{
    lemma_offsets();
    crate::record::lemma_numbers_at(layout(), s, 0);
    crate::record::lemma_numbers_at(layout(), s, 1);
    crate::record::lemma_numbers_at(layout(), s, 2);
    crate::record::lemma_numbers_at(layout(), s, 3);
}

/// The record written for an event holds its scale as the three numbers at
/// offsets 0, 4 and 8, and at offset 12 a number that refers to its node,
/// little-endian.
pub proof fn lemma_written_bytes(ad: AnimDefV, v: ObjectScaleState<Seq<u8>>)
    requires
        serialize(ad, v) is Some,
    ensures
        ({
            let b = serialize(ad, v).unwrap();
            &&& b.len() == SIZE
            &&& crate::record::le32_at(b, 0) == v.state.x
            &&& crate::record::le32_at(b, 4) == v.state.y
            &&& crate::record::le32_at(b, 8) == v.state.z
            &&& name_at(ad.nodes, crate::record::le32_at(b, 12) as int) == Some(v.name)
        }),
{
    let g = to_fields(ad, v).unwrap();
    assert(conforms_all(g, layout())) by {
        assert forall|k: int| 0 <= k < g.len() implies #[trigger] crate::record::conforms(
            g[k],
            layout()[k],
        ) by {}
    }
    lemma_offsets();
    crate::anim_def::lemma_name_at_index_of(ad.nodes, v.name);
    crate::record::lemma_numbers_written(g, layout(), 0);
    crate::record::lemma_numbers_written(g, layout(), 1);
    crate::record::lemma_numbers_written(g, layout(), 2);
    crate::record::lemma_numbers_written(g, layout(), 3);
    reveal_with_fuel(size, 5);
}

} // verus!
