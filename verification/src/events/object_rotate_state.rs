//! `OBJECT_ROTATE_STATE` (9): sets the rotation of a node, absolutely,
//! relative to its rotation, or in the frame of another node.
use vstd::prelude::*;
use crate::anim_def::{
    index_of, lemma_name_reread, lemma_node_or_input_reread, name_at, node_or_input,
    node_or_input_index, AnimDef, AnimDefV,
};
use crate::error::Error;
use crate::float;
use crate::model::Vec3;
use crate::record::{
    conforms_all, decode, decode_record, encode, encode_record, fields_view, get_u16, get_u32,
    lemma_decode_encode, lemma_encode_size, size, w16, w32, FieldV, Fld, Kind,
};

use crate::anim_def::{lemma_index_of_name_at, lemma_node_or_input_exact};
use crate::record::{lemma_conforming_fields, lemma_encode_decode, lemma_decode_conforms};
verus! {

/// The frame that a rotation is given in.
#[derive(Debug)]
pub enum RotateBasis<N> {
    Absolute,
    Relative,
    AtNodeXYZ(N),
    AtNodeMatrix(N),
}

impl DeepView for RotateBasis<Vec<u8>> {
    type V = RotateBasis<Seq<u8>>;

    open spec fn deep_view(&self) -> RotateBasis<Seq<u8>> {
        match self {
            RotateBasis::Absolute => RotateBasis::Absolute,
            RotateBasis::Relative => RotateBasis::Relative,
            RotateBasis::AtNodeXYZ(n) => RotateBasis::AtNodeXYZ(n@),
            RotateBasis::AtNodeMatrix(n) => RotateBasis::AtNodeMatrix(n@),
        }
    }
}

/// An `OBJECT_ROTATE_STATE` event.
#[derive(Debug)]
pub struct ObjectRotateState<N> {
    pub name: N,
    pub state: Vec3,
    pub basis: RotateBasis<N>,
}

impl DeepView for ObjectRotateState<Vec<u8>> {
    type V = ObjectRotateState<Seq<u8>>;

    open spec fn deep_view(&self) -> ObjectRotateState<Seq<u8>> {
        ObjectRotateState { name: self.name@, state: self.state, basis: self.basis.deep_view() }
    }
}

/// Size of the record.
pub const SIZE: u32 = 20;

/// The node index that stands for the input node (`-200`).
pub const INPUT: u32 = 0xFF38;

/// Flag: relative rotation.
pub const RELATIVE: u32 = 1;

/// Flag: rotation about the axes of a node.
pub const AT_NODE_XYZ: u32 = 2;

/// Flag: rotation in the frame of a node.
pub const AT_NODE_MATRIX: u32 = 4;

/// Fields: flags, rotation, node index, at-node index.
pub open spec fn layout() -> Seq<Kind> {
    seq![Kind::U32, Kind::U32, Kind::U32, Kind::U32, Kind::U16, Kind::U16]
}

fn layout_exec() -> (r: Vec<Kind>)
    ensures
        r@ == layout(),
        size(layout()) == SIZE,
{
    let r = vec![Kind::U32, Kind::U32, Kind::U32, Kind::U32, Kind::U16, Kind::U16];
    proof {
        assert(r@ =~= layout());
        reveal_with_fuel(size, 7);
    }
    r
}

/// Every angle lies in `-PI..=PI`.
pub open spec fn angles_ok(v: Vec3) -> bool {
    &&& float::in_range(float::NEG_PI, v.x, float::PI)
    &&& float::in_range(float::NEG_PI, v.y, float::PI)
    &&& float::in_range(float::NEG_PI, v.z, float::PI)
}

/// The frame of a record: exactly one flag or none; a node frame refers to
/// a node or the input node; the other frames store no node.
pub open spec fn basis_of(ad: AnimDefV, flags: u32, at: u16) -> Option<RotateBasis<Seq<u8>>> {
    if flags == AT_NODE_XYZ {
        match node_or_input(ad, at as int, INPUT as int) {
            Some(n) => Some(RotateBasis::AtNodeXYZ(n)),
            None => None,
        }
    } else if flags == AT_NODE_MATRIX {
        match node_or_input(ad, at as int, INPUT as int) {
            Some(n) => Some(RotateBasis::AtNodeMatrix(n)),
            None => None,
        }
    } else if at != 0 {
        None
    } else if flags == RELATIVE {
        Some(RotateBasis::Relative)
    } else if flags == 0 {
        Some(RotateBasis::Absolute)
    } else {
        None
    }
}

/// The flags and at-node index of a frame.
pub open spec fn basis_fields(ad: AnimDefV, b: RotateBasis<Seq<u8>>) -> Option<(u32, int)> {
    match b {
        RotateBasis::Absolute => Some((0, 0)),
        RotateBasis::Relative => Some((RELATIVE, 0)),
        RotateBasis::AtNodeXYZ(n) => match node_or_input_index(ad, n, INPUT as int) {
            Some(i) => Some((AT_NODE_XYZ, i)),
            None => None,
        },
        RotateBasis::AtNodeMatrix(n) => match node_or_input_index(ad, n, INPUT as int) {
            Some(i) => Some((AT_NODE_MATRIX, i)),
            None => None,
        },
    }
}

/// The event that the fields of a record describe, if they describe one.
pub open spec fn from_fields(ad: AnimDefV, f: Seq<FieldV>) -> Option<ObjectRotateState<Seq<u8>>> {
    let state = Vec3 { x: w32(f, 1), y: w32(f, 2), z: w32(f, 3) };
    if !angles_ok(state) {
        None
    } else {
        match (name_at(ad.nodes, w16(f, 4) as int), basis_of(ad, w32(f, 0), w16(f, 5))) {
            (Some(name), Some(basis)) => Some(ObjectRotateState { name, state, basis }),
            _ => None,
        }
    }
}

/// The fields of the record of an event, if it can be written.
pub open spec fn to_fields(ad: AnimDefV, v: ObjectRotateState<Seq<u8>>) -> Option<Seq<FieldV>> {
    match (index_of(ad.nodes, v.name), basis_fields(ad, v.basis)) {
        (Some(ni), Some(b)) => Some(
            seq![
                FieldV::U32(b.0),
                FieldV::U32(v.state.x),
                FieldV::U32(v.state.y),
                FieldV::U32(v.state.z),
                FieldV::U16(ni as u16),
                FieldV::U16(b.1 as u16),
            ],
        ),
        _ => None,
    }
}

/// The event that a record holds, if it holds one.
pub open spec fn parse(ad: AnimDefV, s: Seq<u8>) -> Option<ObjectRotateState<Seq<u8>>> {
    if s.len() == SIZE {
        from_fields(ad, decode(layout(), s))
    } else {
        None
    }
}

/// The record of an event, if it can be written.
pub open spec fn serialize(ad: AnimDefV, v: ObjectRotateState<Seq<u8>>) -> Option<Seq<u8>> {
    match to_fields(ad, v) {
        Some(f) => Some(encode(f)),
        None => None,
    }
}

/// Reads an `OBJECT_ROTATE_STATE` record.
pub fn read(data: &[u8], ad: &AnimDef) -> (r: Result<ObjectRotateState<Vec<u8>>, Error>)
    ensures
        match parse(ad@, data@) {
            Some(v) => r matches Ok(x) && x.deep_view() == v,
            None => r == Err::<ObjectRotateState<Vec<u8>>, Error>(Error::Invalid),
        },
{
    if data.len() != 20 {
        return Err(Error::Invalid);
    }
    let l = layout_exec();
    let f = decode_record(data, l.as_slice());
    let flags = get_u32(&f, 0);
    let state = Vec3 { x: get_u32(&f, 1), y: get_u32(&f, 2), z: get_u32(&f, 3) };
    if !float::f32_in_range(float::NEG_PI, state.x, float::PI) || !float::f32_in_range(
        float::NEG_PI,
        state.y,
        float::PI,
    ) || !float::f32_in_range(float::NEG_PI, state.z, float::PI) {
        return Err(Error::Invalid);
    }
    let name = ad.node_from_index(get_u16(&f, 4) as u32)?;
    let at = get_u16(&f, 5);
    let basis = if flags == AT_NODE_XYZ {
        RotateBasis::AtNodeXYZ(ad.node_or_input_from_index(at as u32, INPUT)?)
    } else if flags == AT_NODE_MATRIX {
        RotateBasis::AtNodeMatrix(ad.node_or_input_from_index(at as u32, INPUT)?)
    } else if at != 0 {
        return Err(Error::Invalid);
    } else if flags == RELATIVE {
        RotateBasis::Relative
    } else if flags == 0 {
        RotateBasis::Absolute
    } else {
        return Err(Error::Invalid);
    };
    Ok(ObjectRotateState { name, state, basis })
}

/// Writes an `OBJECT_ROTATE_STATE` record.
pub fn write(v: &ObjectRotateState<Vec<u8>>, ad: &AnimDef, out: &mut Vec<u8>) -> (r: Result<
    (),
    Error,
>)
    ensures
        match serialize(ad@, v.deep_view()) {
            Some(b) => r is Ok && final(out)@ == old(out)@ + b,
            None => r == Err::<(), Error>(Error::Invalid) && final(out)@ == old(out)@,
        },
{
    let ni = ad.node_to_index(&v.name)?;
    let (flags, at): (u32, u16) = match &v.basis {
        RotateBasis::Absolute => (0, 0),
        RotateBasis::Relative => (RELATIVE, 0),
        RotateBasis::AtNodeXYZ(n) => {
            let i = ad.node_or_input_to_index(n, INPUT)?;
            (AT_NODE_XYZ, i as u16)
        },
        RotateBasis::AtNodeMatrix(n) => {
            let i = ad.node_or_input_to_index(n, INPUT)?;
            (AT_NODE_MATRIX, i as u16)
        },
    };
    let p = v.state;
    let fs = vec![
        Fld::U32(flags),
        Fld::U32(p.x),
        Fld::U32(p.y),
        Fld::U32(p.z),
        Fld::U16(ni),
        Fld::U16(at),
    ];
    proof {
        assert(fields_view(fs@) =~= to_fields(ad@, v.deep_view()).unwrap());
    }
    encode_record(&fs, out);
    Ok(())
}

/// Writing an event that was read, then reading it again, gives the same
/// event.
pub proof fn lemma_reread(ad: AnimDefV, s: Seq<u8>)
    requires
        parse(ad, s) is Some,
    ensures
        serialize(ad, parse(ad, s).unwrap()) matches Some(b) && parse(ad, b) == parse(ad, s),
{
    let f = decode(layout(), s);
    lemma_name_reread(ad.nodes, w16(f, 4) as int);
    if w32(f, 0) == AT_NODE_XYZ || w32(f, 0) == AT_NODE_MATRIX {
        lemma_node_or_input_reread(ad, w16(f, 5) as int, INPUT as int);
    }
    let g = to_fields(ad, parse(ad, s).unwrap()).unwrap();
    assert(conforms_all(g, layout()));
    lemma_decode_encode(g, layout());
    lemma_encode_size(g, layout());
    reveal_with_fuel(size, 7);
}

/// A record that is written has the record's size.
pub proof fn lemma_written_size(ad: AnimDefV, v: ObjectRotateState<Seq<u8>>)
    requires
        serialize(ad, v) is Some,
    ensures
        serialize(ad, v).unwrap().len() == SIZE,
{
    let g = to_fields(ad, v).unwrap();
    assert(conforms_all(g, layout()));
    lemma_encode_size(g, layout());
    reveal_with_fuel(size, 7);
}

/// The record is written back exactly as read: always.
pub open spec fn exact_record(ad: AnimDefV, s: Seq<u8>) -> bool {
    true
}

/// Writing the event of a record gives the record back, where the nodes of the
/// definition are distinct and none bears the input node's name and the record
/// is written back exactly.
pub proof fn lemma_exact(ad: AnimDefV, s: Seq<u8>)
    requires
        parse(ad, s) is Some,
        crate::anim_def::distinct_nodes(ad),
        exact_record(ad, s),
    ensures
        serialize(ad, parse(ad, s).unwrap()) == Some(s),
{
    let f = decode(layout(), s);
    reveal_with_fuel(size, 7);
    lemma_decode_conforms(layout(), s);
    lemma_encode_decode(layout(), s);
    lemma_conforming_fields(f, layout());
    lemma_index_of_name_at(ad.nodes, w16(f, 4) as int);
    if w32(f, 0) == AT_NODE_XYZ || w32(f, 0) == AT_NODE_MATRIX {
        lemma_node_or_input_exact(ad, w16(f, 5) as int, INPUT as int);
    }
    assert(to_fields(ad, parse(ad, s).unwrap()).unwrap() =~= f);
}

/// The offset of each field of the record.
proof fn lemma_offsets()
    ensures
        size(layout().take(0)) == 0,
        size(layout().take(1)) == 4,
        size(layout().take(2)) == 8,
        size(layout().take(3)) == 12,
        size(layout().take(4)) == 16,
        size(layout().take(5)) == 18,
{
    reveal_with_fuel(size, 7);
    assert(layout().take(0) =~= Seq::<Kind>::empty());
    assert(layout().take(1) =~= seq![Kind::U32]);
    assert(layout().take(2) =~= seq![Kind::U32, Kind::U32]);
    assert(layout().take(3) =~= seq![Kind::U32, Kind::U32, Kind::U32]);
    assert(layout().take(4) =~= seq![Kind::U32, Kind::U32, Kind::U32, Kind::U32]);
    assert(layout().take(5) =~= seq![Kind::U32, Kind::U32, Kind::U32, Kind::U32, Kind::U16]);
}

/// An event read from a record holds the record's numbers, little-endian:
/// its angles are the three numbers at offsets 4, 8 and 12, and its node the
/// one that the two-byte number at offset 16 refers to.
pub proof fn lemma_read_bytes(ad: AnimDefV, s: Seq<u8>)
    requires
        parse(ad, s) is Some,
    ensures
        ({
            let v = parse(ad, s).unwrap();
            &&& v.state == Vec3 {
                x: crate::record::le32_at(s, 4),
                y: crate::record::le32_at(s, 8),
                z: crate::record::le32_at(s, 12),
            }
            &&& name_at(ad.nodes, crate::record::le16_at(s, 16) as int) == Some(v.name)
        }),
{
    lemma_offsets();
    crate::record::lemma_numbers_at(layout(), s, 1);
    crate::record::lemma_numbers_at(layout(), s, 2);
    crate::record::lemma_numbers_at(layout(), s, 3);
    crate::record::lemma_numbers_at(layout(), s, 4);
}

/// The record written for an event holds its angles as the three numbers at
/// offsets 4, 8 and 12, and at offset 16 a two-byte number that refers to
/// its node, little-endian.
pub proof fn lemma_written_bytes(ad: AnimDefV, v: ObjectRotateState<Seq<u8>>)
    requires
        serialize(ad, v) is Some,
    ensures
        ({
            let b = serialize(ad, v).unwrap();
            &&& crate::record::le32_at(b, 4) == v.state.x
            &&& crate::record::le32_at(b, 8) == v.state.y
            &&& crate::record::le32_at(b, 12) == v.state.z
            &&& name_at(ad.nodes, crate::record::le16_at(b, 16) as int) == Some(v.name)
        }),
{
    let g = to_fields(ad, v).unwrap();
    assert(conforms_all(g, layout())) by {
        assert forall|k: int| 0 <= k < g.len() implies #[trigger] crate::record::conforms(
            g[k],
            layout()[k],
        ) by {}
    }
    lemma_offsets();
    crate::anim_def::lemma_name_at_index_of(ad.nodes, v.name);
    crate::record::lemma_numbers_written(g, layout(), 1);
    crate::record::lemma_numbers_written(g, layout(), 2);
    crate::record::lemma_numbers_written(g, layout(), 3);
    crate::record::lemma_numbers_written(g, layout(), 4);
}

/// The frame of the angles of an event read from a record is given by the
/// number at offset 0, little-endian: `0` absolute, `RELATIVE` relative,
/// `AT_NODE_XYZ` and `AT_NODE_MATRIX` at the node that the two-byte number at
/// offset 18 refers to.
pub proof fn lemma_basis_read(ad: AnimDefV, s: Seq<u8>)
    requires
        parse(ad, s) is Some,
    ensures
        ({
            let fl = crate::record::le32_at(s, 0);
            let at = crate::record::le16_at(s, 18);
            match parse(ad, s).unwrap().basis {
                RotateBasis::Absolute => fl == 0,
                RotateBasis::Relative => fl == RELATIVE,
                RotateBasis::AtNodeXYZ(n) => fl == AT_NODE_XYZ && node_or_input(
                    ad,
                    at as int,
                    INPUT as int,
                ) == Some(n),
                RotateBasis::AtNodeMatrix(n) => fl == AT_NODE_MATRIX && node_or_input(
                    ad,
                    at as int,
                    INPUT as int,
                ) == Some(n),
            }
        }),
{
    lemma_offsets();
    crate::record::lemma_numbers_at(layout(), s, 0);
    crate::record::lemma_numbers_at(layout(), s, 5);
}

/// The record written for an event gives the frame of its angles by the
/// number at offset 0, little-endian: `0` absolute, `RELATIVE` relative,
/// `AT_NODE_XYZ` and `AT_NODE_MATRIX` at a node.
pub proof fn lemma_basis_written(ad: AnimDefV, v: ObjectRotateState<Seq<u8>>)
    requires
        serialize(ad, v) is Some,
    ensures
        ({
            let fl = crate::record::le32_at(serialize(ad, v).unwrap(), 0);
            match v.basis {
                RotateBasis::Absolute => fl == 0,
                RotateBasis::Relative => fl == RELATIVE,
                RotateBasis::AtNodeXYZ(_) => fl == AT_NODE_XYZ,
                RotateBasis::AtNodeMatrix(_) => fl == AT_NODE_MATRIX,
            }
        }),
{
    let g = to_fields(ad, v).unwrap();
    assert(conforms_all(g, layout())) by {
        assert forall|k: int| 0 <= k < g.len() implies #[trigger] crate::record::conforms(
            g[k],
            layout()[k],
        ) by {}
    }
    lemma_offsets();
    crate::record::lemma_numbers_written(g, layout(), 0);
}

} // verus!
