//! `OBJECT_ACTIVE_STATE` (6): shows or hides a node.
//!
//! Two node indices are special: `-100` stands for the input node, and `-1`
//! for the node `pltes`, which some records refer to without the animation
//! definition listing it.
use vstd::prelude::*;
use crate::anim_def::{
    index_of, input_node_name, input_node_name_exec, lemma_name_reread, name_at, AnimDef, AnimDefV,
};
use crate::error::Error;
use crate::model::{bool32_exec, bool_int, bool_of};
use crate::record::{
    conforms_all, decode, decode_record, encode, encode_record, fields_view, get_u16, get_u32,
    lemma_decode_encode, lemma_encode_size, size, w16, w32, FieldV, Fld, Kind,
};
use crate::text::bytes_eq;

use crate::anim_def::{lemma_index_of_name_at};
use crate::record::{lemma_conforming_fields, lemma_encode_decode, lemma_decode_conforms};
verus! {

/// An `OBJECT_ACTIVE_STATE` event.
#[derive(Debug)]
pub struct ObjectActiveState<N> {
    pub node: N,
    pub state: bool,
}

impl DeepView for ObjectActiveState<Vec<u8>> {
    type V = ObjectActiveState<Seq<u8>>;

    open spec fn deep_view(&self) -> ObjectActiveState<Seq<u8>> {
        ObjectActiveState { node: self.node@, state: self.state }
    }
}

/// Size of the record.
pub const SIZE: u32 = 8;

/// The node index that stands for `pltes` (`-1`).
pub const FIXUP: u16 = 0xFFFF;

/// The node index that stands for the input node (`-100`).
pub const INPUT: u16 = 0xFF9C;

/// The node that the index `-1` stands for.
#[verifier::opaque]
pub open spec fn fixup_name() -> Seq<u8> {
    seq![0x70u8, 0x6C, 0x74, 0x65, 0x73]
}

fn fixup_name_exec() -> (r: Vec<u8>)
    ensures
        r@ == fixup_name(),
{
    let r = vec![0x70u8, 0x6C, 0x74, 0x65, 0x73];
    proof {
        reveal(fixup_name);
        assert(r@ =~= fixup_name());
    }
    r
}

/// Fields: state, node index, padding.
pub open spec fn layout() -> Seq<Kind> {
    seq![Kind::U32, Kind::U16, Kind::U16]
}

fn layout_exec() -> (r: Vec<Kind>)
    ensures
        r@ == layout(),
        size(layout()) == SIZE,
{
    let r = vec![Kind::U32, Kind::U16, Kind::U16];
    proof {
        assert(r@ =~= layout());
        reveal_with_fuel(size, 4);
    }
    r
}

/// The node of a stored index.
pub open spec fn node_of(ad: AnimDefV, raw: u16) -> Option<Seq<u8>> {
    if raw == FIXUP {
        Some(fixup_name())
    } else if raw == INPUT {
        Some(input_node_name())
    } else {
        name_at(ad.nodes, raw as int)
    }
}

/// The stored index of a node.
pub open spec fn index_of_node(ad: AnimDefV, name: Seq<u8>) -> Option<u16> {
    if name == fixup_name() {
        Some(FIXUP)
    } else if name == input_node_name() {
        Some(INPUT)
    } else {
        match index_of(ad.nodes, name) {
            Some(i) => Some(i as u16),
            None => None,
        }
    }
}

/// The event that the fields of a record describe, if they describe one.
pub open spec fn from_fields(ad: AnimDefV, f: Seq<FieldV>) -> Option<ObjectActiveState<Seq<u8>>> {
    match (bool_of(w32(f, 0) as int), node_of(ad, w16(f, 1))) {
        (Some(state), Some(node)) => if w16(f, 2) == 0 {
            Some(ObjectActiveState { node, state })
        } else {
            None
        },
        _ => None,
    }
}

/// The fields of the record of an event, if it can be written.
pub open spec fn to_fields(ad: AnimDefV, v: ObjectActiveState<Seq<u8>>) -> Option<Seq<FieldV>> {
    match index_of_node(ad, v.node) {
        Some(ni) => Some(
            seq![FieldV::U32(bool_int(v.state) as u32), FieldV::U16(ni), FieldV::U16(0)],
        ),
        None => None,
    }
}

/// The event that a record holds, if it holds one.
pub open spec fn parse(ad: AnimDefV, s: Seq<u8>) -> Option<ObjectActiveState<Seq<u8>>> {
    if s.len() == SIZE {
        from_fields(ad, decode(layout(), s))
    } else {
        None
    }
}

/// The record of an event, if it can be written.
pub open spec fn serialize(ad: AnimDefV, v: ObjectActiveState<Seq<u8>>) -> Option<Seq<u8>> {
    match to_fields(ad, v) {
        Some(f) => Some(encode(f)),
        None => None,
    }
}

/// Reads an `OBJECT_ACTIVE_STATE` record.
pub fn read(data: &[u8], ad: &AnimDef) -> (r: Result<ObjectActiveState<Vec<u8>>, Error>)
    ensures
        match parse(ad@, data@) {
            Some(v) => r matches Ok(x) && x.deep_view() == v,
            None => r == Err::<ObjectActiveState<Vec<u8>>, Error>(Error::Invalid),
        },
{
    if data.len() != 8 {
        return Err(Error::Invalid);
    }
    let l = layout_exec();
    let f = decode_record(data, l.as_slice());
    let state = match bool32_exec(get_u32(&f, 0)) {
        Some(b) => b,
        None => return Err(Error::Invalid),
    };
    if get_u16(&f, 2) != 0 {
        return Err(Error::Invalid);
    }
    let raw = get_u16(&f, 1);
    let node = if raw == FIXUP {
        fixup_name_exec()
    } else if raw == INPUT {
        input_node_name_exec()
    } else {
        match ad.node_from_index(raw as u32) {
            Ok(n) => n,
            Err(e) => {
                assert(parse(ad@, data@) is None);
                return Err(e);
            },
        }
    };
    Ok(ObjectActiveState { node, state })
}

/// Writes an `OBJECT_ACTIVE_STATE` record.
pub fn write(v: &ObjectActiveState<Vec<u8>>, ad: &AnimDef, out: &mut Vec<u8>) -> (r: Result<
    (),
    Error,
>)
    ensures
        match serialize(ad@, v.deep_view()) {
            Some(b) => r is Ok && final(out)@ == old(out)@ + b,
            None => r == Err::<(), Error>(Error::Invalid) && final(out)@ == old(out)@,
        },
{
    let fixup = fixup_name_exec();
    let input = input_node_name_exec();
    let ni = if bytes_eq(&v.node, &fixup) {
        FIXUP
    } else if bytes_eq(&v.node, &input) {
        INPUT
    } else {
        ad.node_to_index(&v.node)?
    };
    let state: u32 = if v.state {
        1
    } else {
        0
    };
    let fs = vec![Fld::U32(state), Fld::U16(ni), Fld::U16(0)];
    proof {
        assert(fields_view(fs@) =~= to_fields(ad@, v.deep_view()).unwrap());
    }
    encode_record(&fs, out);
    Ok(())
}

/// Writing an event that was read, then reading it again, gives the same
/// event.
pub proof fn lemma_reread(ad: AnimDefV, s: Seq<u8>)
    requires
        parse(ad, s) is Some,
    ensures
        serialize(ad, parse(ad, s).unwrap()) matches Some(b) && parse(ad, b) == parse(ad, s),
{
    let f = decode(layout(), s);
    let raw = w16(f, 1);
    reveal(fixup_name);
    reveal(crate::anim_def::input_node_name);
    if raw != FIXUP && raw != INPUT {
        let n = name_at(ad.nodes, raw as int).unwrap();
        if n != fixup_name() && n != input_node_name() {
            lemma_name_reread(ad.nodes, raw as int);
        }
    }
    let g = to_fields(ad, parse(ad, s).unwrap()).unwrap();
    assert(conforms_all(g, layout()));
    lemma_decode_encode(g, layout());
    lemma_encode_size(g, layout());
    reveal_with_fuel(size, 4);
}

/// A record that is written has the record's size.
pub proof fn lemma_written_size(ad: AnimDefV, v: ObjectActiveState<Seq<u8>>)
    requires
        serialize(ad, v) is Some,
    ensures
        serialize(ad, v).unwrap().len() == SIZE,
{
    let g = to_fields(ad, v).unwrap();
    assert(conforms_all(g, layout()));
    lemma_encode_size(g, layout());
    reveal_with_fuel(size, 4);
}

/// The record is written back exactly as read: no node bears the name that stands for the
/// special index.
pub open spec fn exact_record(ad: AnimDefV, s: Seq<u8>) -> bool {
    !ad.nodes.unwrap_or(Seq::empty()).contains(fixup_name())
}

/// Writing the event of a record gives the record back, where the nodes of the
/// definition are distinct and none bears the input node's name and the record
/// is written back exactly.
pub proof fn lemma_exact(ad: AnimDefV, s: Seq<u8>)
    requires
        parse(ad, s) is Some,
        crate::anim_def::distinct_nodes(ad),
        exact_record(ad, s),
    ensures
        serialize(ad, parse(ad, s).unwrap()) == Some(s),
{
    let f = decode(layout(), s);
    reveal_with_fuel(size, 4);
    lemma_decode_conforms(layout(), s);
    lemma_encode_decode(layout(), s);
    lemma_conforming_fields(f, layout());
    let raw = w16(f, 1);
    reveal(fixup_name);
    reveal(crate::anim_def::input_node_name);
    if raw != FIXUP && raw != INPUT {
        lemma_index_of_name_at(ad.nodes, raw as int);
        assert(ad.nodes.unwrap().contains(ad.nodes.unwrap()[raw - 1]));
    }
    assert(to_fields(ad, parse(ad, s).unwrap()).unwrap() =~= f);
}

/// The state of an event read from a record is given by the record's first
/// four bytes, read as a little-endian number: `true` where they hold `1`,
/// `false` where they hold `0` (a record holding any other number is not
/// read).
pub proof fn lemma_state_read(ad: AnimDefV, s: Seq<u8>)
    requires
        parse(ad, s) is Some,
    ensures
        vstd::bytes::spec_u32_from_le_bytes(s.subrange(0, 4)) == (if parse(ad, s).unwrap().state {
            1u32
        } else {
            0u32
        }),
{
    reveal_with_fuel(size, 4);
    assert(layout().take(0) =~= Seq::<Kind>::empty());
    crate::record::lemma_decode_u32(layout(), s, 0);
}

/// The record written for an event holds its state in its first four
/// bytes, little-endian: `1` for `true`, `0` for `false`.
pub proof fn lemma_state_written(ad: AnimDefV, v: ObjectActiveState<Seq<u8>>)
    requires
        serialize(ad, v) is Some,
    ensures
        serialize(ad, v).unwrap().subrange(0, 4) == vstd::bytes::spec_u32_to_le_bytes(
            if v.state {
                1u32
            } else {
                0u32
            },
        ),
{
    let g = to_fields(ad, v).unwrap();
    assert(conforms_all(g, layout())) by {
        assert forall|k: int| 0 <= k < g.len() implies #[trigger] crate::record::conforms(
            g[k],
            layout()[k],
        ) by {}
    }
    reveal_with_fuel(size, 4);
    assert(layout().take(0) =~= Seq::<Kind>::empty());
    crate::record::lemma_encode_u32(g, layout(), 0);
}

/// The offset of each field of the record.
proof fn lemma_offsets()
    ensures
        size(layout().take(0)) == 0,
        size(layout().take(1)) == 4,
        size(layout().take(2)) == 6,
{
    reveal_with_fuel(size, 4);
    assert(layout().take(0) =~= Seq::<Kind>::empty());
    assert(layout().take(1) =~= seq![Kind::U32]);
    assert(layout().take(2) =~= seq![Kind::U32, Kind::U16]);
}

/// The node of an event read from a record is the one that the two-byte
/// number at offset 4 refers to (`-1` for `pltes`, `-100` for the input
/// node), little-endian, and the two bytes after it are zero.
pub proof fn lemma_node_read(ad: AnimDefV, s: Seq<u8>)
    requires
        parse(ad, s) is Some,
    ensures
        node_of(ad, crate::record::le16_at(s, 4)) == Some(parse(ad, s).unwrap().node),
        crate::record::le16_at(s, 6) == 0,
{
    lemma_offsets();
    crate::record::lemma_numbers_at(layout(), s, 1);
    crate::record::lemma_numbers_at(layout(), s, 2);
}

} // verus!
