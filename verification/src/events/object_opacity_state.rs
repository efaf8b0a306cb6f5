//! `OBJECT_OPACITY_STATE` (13): sets or clears the opacity of a node.
use vstd::prelude::*;
use crate::anim_def::{
    lemma_node_or_input_reread, node_or_input, node_or_input_index, AnimDef, AnimDefV,
};
use crate::error::Error;
use crate::float;
use crate::model::{bool16_exec, bool_int, bool_of};
use crate::record::{
    conforms_all, decode, decode_record, encode, encode_record, fields_view, get_u16, get_u32,
    lemma_decode_encode, lemma_encode_size, size, w16, w32, FieldV, Fld, Kind,
};

use crate::anim_def::{lemma_node_or_input_exact};
use crate::record::{lemma_conforming_fields, lemma_encode_decode, lemma_decode_conforms};
verus! {

/// An `OBJECT_OPACITY_STATE` event.
#[derive(Debug)]
pub struct ObjectOpacityState<N> {
    pub name: N,
    pub state: bool,
    /// The opacity, in `0.0..=1.0`, where the record sets one.
    pub opacity: Option<u32>,
}

impl DeepView for ObjectOpacityState<Vec<u8>> {
    type V = ObjectOpacityState<Seq<u8>>;

    open spec fn deep_view(&self) -> ObjectOpacityState<Seq<u8>> {
        ObjectOpacityState { name: self.name@, state: self.state, opacity: self.opacity }
    }
}

/// Size of the record.
pub const SIZE: u32 = 12;

/// The node index that stands for the input node (`-100`).
pub const INPUT: u32 = 0xFF9C;

/// Fields: is set, has opacity, opacity, node index, padding.
pub open spec fn layout() -> Seq<Kind> {
    seq![Kind::U16, Kind::U16, Kind::U32, Kind::U16, Kind::U16]
}

fn layout_exec() -> (r: Vec<Kind>)
    ensures
        r@ == layout(),
        size(layout()) == SIZE,
{
    let r = vec![Kind::U16, Kind::U16, Kind::U32, Kind::U16, Kind::U16];
    proof {
        assert(r@ =~= layout());
        reveal_with_fuel(size, 6);
    }
    r
}

/// The opacity of a record: in `0.0..=1.0` where set, `0.0` otherwise.
pub open spec fn opacity_of(active: bool, op: u32) -> Option<Option<u32>> {
    if active {
        if float::in_range(float::ZERO, op, float::ONE) {
            Some(Some(op))
        } else {
            None
        }
    } else if float::is_zero(op) {
        Some(None)
    } else {
        None
    }
}

/// The event that the fields of a record describe, if they describe one.
pub open spec fn from_fields(ad: AnimDefV, f: Seq<FieldV>) -> Option<ObjectOpacityState<Seq<u8>>> {
    match (bool_of(w16(f, 0) as int), bool_of(w16(f, 1) as int)) {
        (Some(state), Some(active)) => match (
            opacity_of(active, w32(f, 2)),
            node_or_input(ad, w16(f, 3) as int, INPUT as int),
        ) {
            (Some(opacity), Some(name)) => if w16(f, 4) == 0 {
                Some(ObjectOpacityState { name, state, opacity })
            } else {
                None
            },
            _ => None,
        },
        _ => None,
    }
}

/// The fields of the record of an event, if it can be written.
pub open spec fn to_fields(ad: AnimDefV, v: ObjectOpacityState<Seq<u8>>) -> Option<Seq<FieldV>> {
    match node_or_input_index(ad, v.name, INPUT as int) {
        Some(ni) => Some(
            seq![
                FieldV::U16(bool_int(v.state) as u16),
                FieldV::U16(bool_int(v.opacity is Some) as u16),
                FieldV::U32(
                    match v.opacity {
                        Some(o) => o,
                        None => 0,
                    },
                ),
                FieldV::U16(ni as u16),
                FieldV::U16(0),
            ],
        ),
        None => None,
    }
}

/// The event that a record holds, if it holds one.
pub open spec fn parse(ad: AnimDefV, s: Seq<u8>) -> Option<ObjectOpacityState<Seq<u8>>> {
    if s.len() == SIZE {
        from_fields(ad, decode(layout(), s))
    } else {
        None
    }
}

/// The record of an event, if it can be written.
pub open spec fn serialize(ad: AnimDefV, v: ObjectOpacityState<Seq<u8>>) -> Option<Seq<u8>> {
    match to_fields(ad, v) {
        Some(f) => Some(encode(f)),
        None => None,
    }
}

/// Reads an `OBJECT_OPACITY_STATE` record.
pub fn read(data: &[u8], ad: &AnimDef) -> (r: Result<ObjectOpacityState<Vec<u8>>, Error>)
    ensures
        match parse(ad@, data@) {
            Some(v) => r matches Ok(x) && x.deep_view() == v,
            None => r == Err::<ObjectOpacityState<Vec<u8>>, Error>(Error::Invalid),
        },
{
    if data.len() != 12 {
        return Err(Error::Invalid);
    }
    let l = layout_exec();
    let f = decode_record(data, l.as_slice());
    let state = match bool16_exec(get_u16(&f, 0)) {
        Some(b) => b,
        None => return Err(Error::Invalid),
    };
    let active = match bool16_exec(get_u16(&f, 1)) {
        Some(b) => b,
        None => return Err(Error::Invalid),
    };
    let op = get_u32(&f, 2);
    let opacity = if active {
        if !float::f32_in_range(float::ZERO, op, float::ONE) {
            return Err(Error::Invalid);
        }
        Some(op)
    } else {
        if !float::f32_is_zero(op) {
            return Err(Error::Invalid);
        }
        None
    };
    let name = ad.node_or_input_from_index(get_u16(&f, 3) as u32, INPUT)?;
    if get_u16(&f, 4) != 0 {
        return Err(Error::Invalid);
    }
    Ok(ObjectOpacityState { name, state, opacity })
}

/// Writes an `OBJECT_OPACITY_STATE` record.
pub fn write(v: &ObjectOpacityState<Vec<u8>>, ad: &AnimDef, out: &mut Vec<u8>) -> (r: Result<
    (),
    Error,
>)
    ensures
        match serialize(ad@, v.deep_view()) {
            Some(b) => r is Ok && final(out)@ == old(out)@ + b,
            None => r == Err::<(), Error>(Error::Invalid) && final(out)@ == old(out)@,
        },
{
    let ni = ad.node_or_input_to_index(&v.name, INPUT)?;
    let st: u16 = if v.state {
        1
    } else {
        0
    };
    let (act, op): (u16, u32) = match v.opacity {
        Some(o) => (1, o),
        None => (0, 0),
    };
    let fs = vec![Fld::U16(st), Fld::U16(act), Fld::U32(op), Fld::U16(ni as u16), Fld::U16(0)];
    proof {
        assert(fields_view(fs@) =~= to_fields(ad@, v.deep_view()).unwrap());
    }
    encode_record(&fs, out);
    Ok(())
}

/// Writing an event that was read, then reading it again, gives the same
/// event.
pub proof fn lemma_reread(ad: AnimDefV, s: Seq<u8>)
    requires
        parse(ad, s) is Some,
    ensures
        serialize(ad, parse(ad, s).unwrap()) matches Some(b) && parse(ad, b) == parse(ad, s),
{
    let f = decode(layout(), s);
    lemma_node_or_input_reread(ad, w16(f, 3) as int, INPUT as int);
    let g = to_fields(ad, parse(ad, s).unwrap()).unwrap();
    assert(conforms_all(g, layout()));
    lemma_decode_encode(g, layout());
    lemma_encode_size(g, layout());
    reveal_with_fuel(size, 6);
}

/// A record that is written has the record's size.
pub proof fn lemma_written_size(ad: AnimDefV, v: ObjectOpacityState<Seq<u8>>)
    requires
        serialize(ad, v) is Some,
    ensures
        serialize(ad, v).unwrap().len() == SIZE,
{
    let g = to_fields(ad, v).unwrap();
    assert(conforms_all(g, layout()));
    lemma_encode_size(g, layout());
    reveal_with_fuel(size, 6);
}

/// The record is written back exactly as read: the opacity of an inactive state is not `-0.0`.
pub open spec fn exact_record(ad: AnimDefV, s: Seq<u8>) -> bool {
    let f = decode(layout(), s);
    w16(f, 1) == 0 ==> w32(f, 2) != float::NEG_ZERO
}

/// Writing the event of a record gives the record back, where the nodes of the
/// definition are distinct and none bears the input node's name and the record
/// is written back exactly.
pub proof fn lemma_exact(ad: AnimDefV, s: Seq<u8>)
    requires
        parse(ad, s) is Some,
        crate::anim_def::distinct_nodes(ad),
        exact_record(ad, s),
    ensures
        serialize(ad, parse(ad, s).unwrap()) == Some(s),
{
    let f = decode(layout(), s);
    reveal_with_fuel(size, 6);
    lemma_decode_conforms(layout(), s);
    lemma_encode_decode(layout(), s);
    lemma_conforming_fields(f, layout());
    lemma_node_or_input_exact(ad, w16(f, 3) as int, INPUT as int);
    assert(to_fields(ad, parse(ad, s).unwrap()).unwrap() =~= f);
}

/// An event read from a record is given by the record's first four bytes,
/// two little-endian numbers: the state is `true` where the first holds `1`
/// and `false` where it holds `0`, and an opacity is present where the
/// second holds `1` and absent where it holds `0` (a record holding any
/// other numbers there is not read).
pub proof fn lemma_state_read(ad: AnimDefV, s: Seq<u8>)
    requires
        parse(ad, s) is Some,
    ensures
        vstd::bytes::spec_u16_from_le_bytes(s.subrange(0, 2)) == (if parse(ad, s).unwrap().state {
            1u16
        } else {
            0u16
        }),
        vstd::bytes::spec_u16_from_le_bytes(s.subrange(2, 4)) == (if parse(
            ad,
            s,
        ).unwrap().opacity is Some {
            1u16
        } else {
            0u16
        }),
{
    reveal_with_fuel(size, 6);
    assert(layout().take(0) =~= Seq::<Kind>::empty());
    assert(layout().take(1) =~= seq![Kind::U16]);
    crate::record::lemma_decode_u16(layout(), s, 0);
    crate::record::lemma_decode_u16(layout(), s, 1);
}

/// The record written for an event holds its state in its first two bytes
/// and whether it has an opacity in the next two, little-endian: `1` for
/// `true` (present), `0` for `false` (absent).
pub proof fn lemma_state_written(ad: AnimDefV, v: ObjectOpacityState<Seq<u8>>)
    requires
        serialize(ad, v) is Some,
    ensures
        serialize(ad, v).unwrap().subrange(0, 2) == vstd::bytes::spec_u16_to_le_bytes(
            if v.state {
                1u16
            } else {
                0u16
            },
        ),
        serialize(ad, v).unwrap().subrange(2, 4) == vstd::bytes::spec_u16_to_le_bytes(
            if v.opacity is Some {
                1u16
            } else {
                0u16
            },
        ),
{
    let g = to_fields(ad, v).unwrap();
    assert(conforms_all(g, layout())) by {
        assert forall|k: int| 0 <= k < g.len() implies #[trigger] crate::record::conforms(
            g[k],
            layout()[k],
        ) by {}
    }
    reveal_with_fuel(size, 6);
    assert(layout().take(0) =~= Seq::<Kind>::empty());
    assert(layout().take(1) =~= seq![Kind::U16]);
    crate::record::lemma_encode_u16(g, layout(), 0);
    crate::record::lemma_encode_u16(g, layout(), 1);
}

/// The offset of each field of the record.
proof fn lemma_offsets()
    ensures
        size(layout().take(0)) == 0,
        size(layout().take(1)) == 2,
        size(layout().take(2)) == 4,
        size(layout().take(3)) == 8,
        size(layout().take(4)) == 10,
{
    reveal_with_fuel(size, 6);
    assert(layout().take(0) =~= Seq::<Kind>::empty());
    assert(layout().take(1) =~= seq![Kind::U16]);
    assert(layout().take(2) =~= seq![Kind::U16, Kind::U16]);
    assert(layout().take(3) =~= seq![Kind::U16, Kind::U16, Kind::U32]);
    assert(layout().take(4) =~= seq![Kind::U16, Kind::U16, Kind::U32, Kind::U16]);
}

/// An event read from a record holds the record's numbers, little-endian:
/// its opacity, where it has one, is the number at offset 4 (which is zero
/// where it has none), and its node the one that the two-byte number at
/// offset 8 refers to.
pub proof fn lemma_read_bytes(ad: AnimDefV, s: Seq<u8>)
    requires
        parse(ad, s) is Some,
    ensures
        ({
            let v = parse(ad, s).unwrap();
            &&& match v.opacity {
                Some(o) => crate::record::le32_at(s, 4) == o,
                None => float::is_zero(crate::record::le32_at(s, 4)),
            }
            &&& node_or_input(ad, crate::record::le16_at(s, 8) as int, INPUT as int) == Some(
                v.name,
            )
        }),
{
    lemma_offsets();
    crate::record::lemma_numbers_at(layout(), s, 2);
    crate::record::lemma_numbers_at(layout(), s, 3);
}

/// The record written for an event holds its opacity at offset 4 (zero
/// where it has none), little-endian.
pub proof fn lemma_written_bytes(ad: AnimDefV, v: ObjectOpacityState<Seq<u8>>)
    requires
        serialize(ad, v) is Some,
    ensures
        crate::record::le32_at(serialize(ad, v).unwrap(), 4) == match v.opacity {
            Some(o) => o,
            None => 0,
        },
{
    let g = to_fields(ad, v).unwrap();
    assert(conforms_all(g, layout())) by {
        assert forall|k: int| 0 <= k < g.len() implies #[trigger] crate::record::conforms(
            g[k],
            layout()[k],
        ) by {}
    }
    lemma_offsets();
    crate::record::lemma_numbers_written(g, layout(), 2);
}

} // verus!
