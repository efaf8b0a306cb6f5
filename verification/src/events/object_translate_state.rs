//! `OBJECT_TRANSLATE_STATE` (7): moves a node, absolutely or relative to
//! where it is, optionally at another node or the input node.
use vstd::prelude::*;
use crate::anim_def::{
    index_of, lemma_name_reread, lemma_node_or_input_reread, name_at, node_or_input,
    node_or_input_index, AnimDef, AnimDefV,
};
use crate::error::Error;
use crate::model::{bool32_exec, bool_int, bool_of, opt_name, Vec3};
use crate::record::{
    conforms_all, decode, decode_record, encode, encode_record, fields_view, get_u16, get_u32,
    lemma_decode_encode, lemma_encode_size, size, w16, w32, FieldV, Fld, Kind,
};

use crate::anim_def::{lemma_index_of_name_at, lemma_node_or_input_exact};
use crate::record::{lemma_conforming_fields, lemma_encode_decode, lemma_decode_conforms};
verus! {

/// An `OBJECT_TRANSLATE_STATE` event.
#[derive(Debug)]
pub struct ObjectTranslateState<N> {
    pub node: N,
    pub relative: bool,
    pub state: Vec3,
    pub at_node: Option<N>,
}

impl DeepView for ObjectTranslateState<Vec<u8>> {
    type V = ObjectTranslateState<Seq<u8>>;

    open spec fn deep_view(&self) -> ObjectTranslateState<Seq<u8>> {
        ObjectTranslateState {
            node: self.node@,
            relative: self.relative,
            state: self.state,
            at_node: opt_name(self.at_node),
        }
    }
}

/// Size of the record.
pub const SIZE: u32 = 20;

/// The node index that stands for the input node (`-200`).
pub const INPUT: u32 = 0xFF38;

/// Fields: relative, translation, node index, at-node index.
pub open spec fn layout() -> Seq<Kind> {
    seq![Kind::U32, Kind::U32, Kind::U32, Kind::U32, Kind::U16, Kind::U16]
}

fn layout_exec() -> (r: Vec<Kind>)
    ensures
        r@ == layout(),
        size(layout()) == SIZE,
{
    let r = vec![Kind::U32, Kind::U32, Kind::U32, Kind::U32, Kind::U16, Kind::U16];
    proof {
        assert(r@ =~= layout());
        reveal_with_fuel(size, 7);
    }
    r
}

/// The node that the at-node index refers to: none for index zero.
pub open spec fn at_node_of(ad: AnimDefV, raw: u16) -> Option<Option<Seq<u8>>> {
    if raw == 0 {
        Some(None)
    } else {
        match node_or_input(ad, raw as int, INPUT as int) {
            Some(n) => Some(Some(n)),
            None => None,
        }
    }
}

/// The at-node index of a node: zero for none.
pub open spec fn at_node_index(ad: AnimDefV, at: Option<Seq<u8>>) -> Option<int> {
    match at {
        None => Some(0),
        Some(n) => node_or_input_index(ad, n, INPUT as int),
    }
}

/// The event that the fields of a record describe, if they describe one.
pub open spec fn from_fields(ad: AnimDefV, f: Seq<FieldV>) -> Option<ObjectTranslateState<Seq<u8>>> {
    match (bool_of(w32(f, 0) as int), name_at(ad.nodes, w16(f, 4) as int), at_node_of(ad, w16(f, 5))) {
        (Some(relative), Some(node), Some(at_node)) => Some(
            ObjectTranslateState {
                node,
                relative,
                state: Vec3 { x: w32(f, 1), y: w32(f, 2), z: w32(f, 3) },
                at_node,
            },
        ),
        _ => None,
    }
}

/// The fields of the record of an event, if it can be written.
pub open spec fn to_fields(ad: AnimDefV, v: ObjectTranslateState<Seq<u8>>) -> Option<Seq<FieldV>> {
    match (index_of(ad.nodes, v.node), at_node_index(ad, v.at_node)) {
        (Some(ni), Some(ai)) => Some(
            seq![
                FieldV::U32(bool_int(v.relative) as u32),
                FieldV::U32(v.state.x),
                FieldV::U32(v.state.y),
                FieldV::U32(v.state.z),
                FieldV::U16(ni as u16),
                FieldV::U16(ai as u16),
            ],
        ),
        _ => None,
    }
}

/// The event that a record holds, if it holds one.
pub open spec fn parse(ad: AnimDefV, s: Seq<u8>) -> Option<ObjectTranslateState<Seq<u8>>> {
    if s.len() == SIZE {
        from_fields(ad, decode(layout(), s))
    } else {
        None
    }
}

/// The record of an event, if it can be written.
pub open spec fn serialize(ad: AnimDefV, v: ObjectTranslateState<Seq<u8>>) -> Option<Seq<u8>> {
    match to_fields(ad, v) {
        Some(f) => Some(encode(f)),
        None => None,
    }
}

/// Reads an `OBJECT_TRANSLATE_STATE` record.
pub fn read(data: &[u8], ad: &AnimDef) -> (r: Result<ObjectTranslateState<Vec<u8>>, Error>)
    ensures
        match parse(ad@, data@) {
            Some(v) => r matches Ok(x) && x.deep_view() == v,
            None => r == Err::<ObjectTranslateState<Vec<u8>>, Error>(Error::Invalid),
        },
{
    if data.len() != 20 {
        return Err(Error::Invalid);
    }
    let l = layout_exec();
    let f = decode_record(data, l.as_slice());
    let relative = match bool32_exec(get_u32(&f, 0)) {
        Some(b) => b,
        None => return Err(Error::Invalid),
    };
    let node = ad.node_from_index(get_u16(&f, 4) as u32)?;
    let raw = get_u16(&f, 5);
    let at_node = if raw == 0 {
        None
    } else {
        Some(ad.node_or_input_from_index(raw as u32, INPUT)?)
    };
    let state = Vec3 { x: get_u32(&f, 1), y: get_u32(&f, 2), z: get_u32(&f, 3) };
    Ok(ObjectTranslateState { node, relative, state, at_node })
}

/// Writes an `OBJECT_TRANSLATE_STATE` record.
pub fn write(v: &ObjectTranslateState<Vec<u8>>, ad: &AnimDef, out: &mut Vec<u8>) -> (r: Result<
    (),
    Error,
>)
    ensures
        match serialize(ad@, v.deep_view()) {
            Some(b) => r is Ok && final(out)@ == old(out)@ + b,
            None => r == Err::<(), Error>(Error::Invalid) && final(out)@ == old(out)@,
        },
{
    let ni = ad.node_to_index(&v.node)?;
    let ai: u16 = match &v.at_node {
        None => 0,
        Some(n) => {
            let i = ad.node_or_input_to_index(n, INPUT)?;
            i as u16
        },
    };
    let rel: u32 = if v.relative {
        1
    } else {
        0
    };
    let p = v.state;
    let fs = vec![
        Fld::U32(rel),
        Fld::U32(p.x),
        Fld::U32(p.y),
        Fld::U32(p.z),
        Fld::U16(ni),
        Fld::U16(ai),
    ];
    proof {
        assert(fields_view(fs@) =~= to_fields(ad@, v.deep_view()).unwrap());
    }
    encode_record(&fs, out);
    Ok(())
}

/// Writing an event that was read, then reading it again, gives the same
/// event.
pub proof fn lemma_reread(ad: AnimDefV, s: Seq<u8>)
    requires
        parse(ad, s) is Some,
    ensures
        serialize(ad, parse(ad, s).unwrap()) matches Some(b) && parse(ad, b) == parse(ad, s),
{
    let f = decode(layout(), s);
    lemma_name_reread(ad.nodes, w16(f, 4) as int);
    if w16(f, 5) != 0 {
        lemma_node_or_input_reread(ad, w16(f, 5) as int, INPUT as int);
    }
    let g = to_fields(ad, parse(ad, s).unwrap()).unwrap();
    assert(conforms_all(g, layout()));
    lemma_decode_encode(g, layout());
    lemma_encode_size(g, layout());
    reveal_with_fuel(size, 7);
}

/// A record that is written has the record's size.
pub proof fn lemma_written_size(ad: AnimDefV, v: ObjectTranslateState<Seq<u8>>)
    requires
        serialize(ad, v) is Some,
    ensures
        serialize(ad, v).unwrap().len() == SIZE,
{
    let g = to_fields(ad, v).unwrap();
    assert(conforms_all(g, layout()));
    lemma_encode_size(g, layout());
    reveal_with_fuel(size, 7);
}

/// The record is written back exactly as read: always.
pub open spec fn exact_record(ad: AnimDefV, s: Seq<u8>) -> bool {
    true
}

/// Writing the event of a record gives the record back, where the nodes of the
/// definition are distinct and none bears the input node's name and the record
/// is written back exactly.
pub proof fn lemma_exact(ad: AnimDefV, s: Seq<u8>)
    requires
        parse(ad, s) is Some,
        crate::anim_def::distinct_nodes(ad),
        exact_record(ad, s),
    ensures
        serialize(ad, parse(ad, s).unwrap()) == Some(s),
{
    let f = decode(layout(), s);
    reveal_with_fuel(size, 7);
    lemma_decode_conforms(layout(), s);
    lemma_encode_decode(layout(), s);
    lemma_conforming_fields(f, layout());
    lemma_index_of_name_at(ad.nodes, w16(f, 4) as int);
    if w16(f, 5) != 0 {
        lemma_node_or_input_exact(ad, w16(f, 5) as int, INPUT as int);
    }
    assert(to_fields(ad, parse(ad, s).unwrap()).unwrap() =~= f);
}

/// Whether an event read from a record is relative is given by the record's
/// first four bytes, read as a little-endian number: `true` where they hold
/// `1`, `false` where they hold `0` (a record holding any other number is not
/// read).
pub proof fn lemma_relative_read(ad: AnimDefV, s: Seq<u8>)
    requires
        parse(ad, s) is Some,
    ensures
        vstd::bytes::spec_u32_from_le_bytes(s.subrange(0, 4)) == (if parse(ad, s).unwrap().relative {
            1u32
        } else {
            0u32
        }),
{
    reveal_with_fuel(size, 7);
    assert(layout().take(0) =~= Seq::<Kind>::empty());
    crate::record::lemma_decode_u32(layout(), s, 0);
}

/// The record written for an event holds whether it is relative in its first
/// four bytes, little-endian: `1` for `true`, `0` for `false`.
pub proof fn lemma_relative_written(ad: AnimDefV, v: ObjectTranslateState<Seq<u8>>)
    requires
        serialize(ad, v) is Some,
    ensures
        serialize(ad, v).unwrap().subrange(0, 4) == vstd::bytes::spec_u32_to_le_bytes(
            if v.relative {
                1u32
            } else {
                0u32
            },
        ),
{
    let g = to_fields(ad, v).unwrap();
    assert(conforms_all(g, layout())) by {
        assert forall|k: int| 0 <= k < g.len() implies #[trigger] crate::record::conforms(
            g[k],
            layout()[k],
        ) by {}
    }
    reveal_with_fuel(size, 7);
    assert(layout().take(0) =~= Seq::<Kind>::empty());
    crate::record::lemma_encode_u32(g, layout(), 0);
}

/// The offset of each field of the record.
proof fn lemma_offsets()
    ensures
        size(layout().take(0)) == 0,
        size(layout().take(1)) == 4,
        size(layout().take(2)) == 8,
        size(layout().take(3)) == 12,
        size(layout().take(4)) == 16,
        size(layout().take(5)) == 18,
{
    reveal_with_fuel(size, 7);
    assert(layout().take(0) =~= Seq::<Kind>::empty());
    assert(layout().take(1) =~= seq![Kind::U32]);
    assert(layout().take(2) =~= seq![Kind::U32, Kind::U32]);
    assert(layout().take(3) =~= seq![Kind::U32, Kind::U32, Kind::U32]);
    assert(layout().take(4) =~= seq![Kind::U32, Kind::U32, Kind::U32, Kind::U32]);
    assert(layout().take(5) =~= seq![Kind::U32, Kind::U32, Kind::U32, Kind::U32, Kind::U16]);
}

/// An event read from a record holds the record's numbers, little-endian:
/// its translation is the three numbers at offsets 4, 8 and 12, its node the
/// one that the two-byte number at offset 16 refers to, and the node it is
/// relative to the one that the two-byte number at offset 18 refers to
/// (none where that number is zero).
pub proof fn lemma_read_bytes(ad: AnimDefV, s: Seq<u8>)
    requires
        parse(ad, s) is Some,
    ensures
        ({
            let v = parse(ad, s).unwrap();
            &&& v.state == Vec3 {
                x: crate::record::le32_at(s, 4),
                y: crate::record::le32_at(s, 8),
                z: crate::record::le32_at(s, 12),
            }
            &&& name_at(ad.nodes, crate::record::le16_at(s, 16) as int) == Some(v.node)
            &&& (v.at_node is None <==> crate::record::le16_at(s, 18) == 0)
            &&& v.at_node matches Some(n) ==> node_or_input(
                ad,
                crate::record::le16_at(s, 18) as int,
                INPUT as int,
            ) == Some(n)
        }),
{
    lemma_offsets();
    crate::record::lemma_numbers_at(layout(), s, 1);
    crate::record::lemma_numbers_at(layout(), s, 2);
    crate::record::lemma_numbers_at(layout(), s, 3);
    crate::record::lemma_numbers_at(layout(), s, 4);
    crate::record::lemma_numbers_at(layout(), s, 5);
}

/// The record written for an event holds its translation as the three
/// numbers at offsets 4, 8 and 12, and at offset 16 a two-byte number that
/// refers to its node, little-endian.
pub proof fn lemma_written_bytes(ad: AnimDefV, v: ObjectTranslateState<Seq<u8>>)
    requires
        serialize(ad, v) is Some,
    ensures
        ({
            let b = serialize(ad, v).unwrap();
            &&& crate::record::le32_at(b, 4) == v.state.x
            &&& crate::record::le32_at(b, 8) == v.state.y
            &&& crate::record::le32_at(b, 12) == v.state.z
            &&& name_at(ad.nodes, crate::record::le16_at(b, 16) as int) == Some(v.node)
        }),
{
    let g = to_fields(ad, v).unwrap();
    assert(conforms_all(g, layout())) by {
        assert forall|k: int| 0 <= k < g.len() implies #[trigger] crate::record::conforms(
            g[k],
            layout()[k],
        ) by {}
    }
    lemma_offsets();
    crate::anim_def::lemma_name_at_index_of(ad.nodes, v.node);
    crate::record::lemma_numbers_written(g, layout(), 1);
    crate::record::lemma_numbers_written(g, layout(), 2);
    crate::record::lemma_numbers_written(g, layout(), 3);
    crate::record::lemma_numbers_written(g, layout(), 4);
}

} // verus!
