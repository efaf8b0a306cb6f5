//! `OBJECT_OPACITY_FROM_TO` (14): fades the opacity of a node over time.
//!
//! The record stores the per-second change of the opacity, `(to - from) /
//! run_time` in floating point; the stored change is kept as it is, and
//! comparing it with the computed one is left to the caller.
use vstd::prelude::*;
use crate::anim_def::{index_of, lemma_name_reread, name_at, AnimDef, AnimDefV};
use crate::error::Error;
use crate::float;
use crate::record::{
    conforms_all, decode, decode_record, encode, encode_record, fields_view, get_u16, get_u32,
    lemma_decode_encode, lemma_encode_size, size, w16, w32, FieldV, Fld, Kind,
};

use crate::anim_def::{lemma_index_of_name_at};
use crate::record::{lemma_conforming_fields, lemma_encode_decode, lemma_decode_conforms};
verus! {

/// An opacity and an optional state.
#[derive(Clone, Copy, Debug, PartialEq, Eq, Structural)]
pub struct ObjectOpacity {
    pub opacity: u32,
    pub state: Option<bool>,
}

/// An `OBJECT_OPACITY_FROM_TO` event.
#[derive(Debug)]
pub struct ObjectOpacityFromTo<N> {
    pub name: N,
    pub opacity_from: ObjectOpacity,
    pub opacity_to: ObjectOpacity,
    pub run_time: u32,
    /// The stored per-second change of the opacity.
    pub opacity_delta: u32,
}

impl DeepView for ObjectOpacityFromTo<Vec<u8>> {
    type V = ObjectOpacityFromTo<Seq<u8>>;

    open spec fn deep_view(&self) -> ObjectOpacityFromTo<Seq<u8>> {
        ObjectOpacityFromTo {
            name: self.name@,
            opacity_from: self.opacity_from,
            opacity_to: self.opacity_to,
            run_time: self.run_time,
            opacity_delta: self.opacity_delta,
        }
    }
}

/// Size of the record.
pub const SIZE: u32 = 24;

/// The state of a stored `i16`: `-1` for none, `0` or `1` for a boolean.
pub open spec fn state_of(x: i16) -> Option<Option<bool>> {
    if x == -1 {
        Some(None)
    } else if x == 0 {
        Some(Some(false))
    } else if x == 1 {
        Some(Some(true))
    } else {
        None
    }
}

/// The stored `i16` of a state.
pub open spec fn state_value(s: Option<bool>) -> i16 {
    match s {
        None => -1i16,
        Some(false) => 0i16,
        Some(true) => 1i16,
    }
}

/// The state of a stored `i16`.
pub fn state_from_i16(state: i16) -> (r: Result<Option<bool>, Error>)
    ensures
        match state_of(state) {
            Some(s) => r == Ok::<Option<bool>, Error>(s),
            None => r == Err::<Option<bool>, Error>(Error::Invalid),
        },
{
    if state == -1 {
        Ok(None)
    } else if state == 0 {
        Ok(Some(false))
    } else if state == 1 {
        Ok(Some(true))
    } else {
        Err(Error::Invalid)
    }
}

/// The stored `i16` of a state.
pub fn state_to_i16(state: Option<bool>) -> (r: i16)
    ensures
        r == state_value(state),
        state_of(r) == Some(state),
{
    match state {
        None => -1,
        Some(false) => 0,
        Some(true) => 1,
    }
}

/// The two bytes of a state.
pub open spec fn state_bits(s: Option<bool>) -> u16 {
    match s {
        None => 0xFFFF,
        Some(false) => 0,
        Some(true) => 1,
    }
}

/// The state of two stored bytes.
pub open spec fn state_of_bits(x: u16) -> Option<Option<bool>> {
    if x == 0xFFFF {
        Some(None)
    } else if x == 0 {
        Some(Some(false))
    } else if x == 1 {
        Some(Some(true))
    } else {
        None
    }
}

/// Fields: node index (four bytes), from state, to state, from opacity, to
/// opacity, change, run time.
pub open spec fn layout() -> Seq<Kind> {
    seq![Kind::U32, Kind::U16, Kind::U16, Kind::U32, Kind::U32, Kind::U32, Kind::U32]
}

fn layout_exec() -> (r: Vec<Kind>)
    ensures
        r@ == layout(),
        size(layout()) == SIZE,
{
    let r = vec![Kind::U32, Kind::U16, Kind::U16, Kind::U32, Kind::U32, Kind::U32, Kind::U32];
    proof {
        assert(r@ =~= layout());
        reveal_with_fuel(size, 8);
    }
    r
}

/// `x` lies in `0.0..=1.0`.
pub open spec fn unit(x: u32) -> bool {
    float::in_range(float::ZERO, x, float::ONE)
}

/// The event that the fields of a record describe, if they describe one:
/// a positive run time, states `-1`, `0` or `1`, and opacities in
/// `0.0..=1.0`.
pub open spec fn from_fields(ad: AnimDefV, f: Seq<FieldV>) -> Option<ObjectOpacityFromTo<Seq<u8>>> {
    let run_time = w32(f, 6);
    if !float::lt(float::ZERO, run_time) || !unit(w32(f, 3)) || !unit(w32(f, 4)) {
        None
    } else {
        match (
            name_at(ad.nodes, w32(f, 0) as int),
            state_of_bits(w16(f, 1)),
            state_of_bits(w16(f, 2)),
        ) {
            (Some(name), Some(sf), Some(st)) => Some(
                ObjectOpacityFromTo {
                    name,
                    opacity_from: ObjectOpacity { opacity: w32(f, 3), state: sf },
                    opacity_to: ObjectOpacity { opacity: w32(f, 4), state: st },
                    run_time,
                    opacity_delta: w32(f, 5),
                },
            ),
            _ => None,
        }
    }
}

/// The fields of the record of an event, if it can be written.
pub open spec fn to_fields(ad: AnimDefV, v: ObjectOpacityFromTo<Seq<u8>>) -> Option<Seq<FieldV>> {
    match index_of(ad.nodes, v.name) {
        Some(ni) => Some(
            seq![
                FieldV::U32(ni as u32),
                FieldV::U16(state_bits(v.opacity_from.state)),
                FieldV::U16(state_bits(v.opacity_to.state)),
                FieldV::U32(v.opacity_from.opacity),
                FieldV::U32(v.opacity_to.opacity),
                FieldV::U32(v.opacity_delta),
                FieldV::U32(v.run_time),
            ],
        ),
        None => None,
    }
}

/// The event that a record holds, if it holds one.
pub open spec fn parse(ad: AnimDefV, s: Seq<u8>) -> Option<ObjectOpacityFromTo<Seq<u8>>> {
    if s.len() == SIZE {
        from_fields(ad, decode(layout(), s))
    } else {
        None
    }
}

/// The record of an event, if it can be written.
pub open spec fn serialize(ad: AnimDefV, v: ObjectOpacityFromTo<Seq<u8>>) -> Option<Seq<u8>> {
    match to_fields(ad, v) {
        Some(f) => Some(encode(f)),
        None => None,
    }
}

fn state_of_bits_exec(x: u16) -> (r: Result<Option<bool>, Error>)
    ensures
        match state_of_bits(x) {
            Some(s) => r == Ok::<Option<bool>, Error>(s),
            None => r == Err::<Option<bool>, Error>(Error::Invalid),
        },
{
    if x == 0xFFFF {
        Ok(None)
    } else if x == 0 {
        Ok(Some(false))
    } else if x == 1 {
        Ok(Some(true))
    } else {
        Err(Error::Invalid)
    }
}

fn state_bits_exec(s: Option<bool>) -> (r: u16)
    ensures
        r == state_bits(s),
{
    match s {
        None => 0xFFFF,
        Some(false) => 0,
        Some(true) => 1,
    }
}

/// Reads an `OBJECT_OPACITY_FROM_TO` record.
pub fn read(data: &[u8], ad: &AnimDef) -> (r: Result<ObjectOpacityFromTo<Vec<u8>>, Error>)
    ensures
        match parse(ad@, data@) {
            Some(v) => r matches Ok(x) && x.deep_view() == v,
            None => r == Err::<ObjectOpacityFromTo<Vec<u8>>, Error>(Error::Invalid),
        },
{
    if data.len() != 24 {
        return Err(Error::Invalid);
    }
    let l = layout_exec();
    let f = decode_record(data, l.as_slice());
    let run_time = get_u32(&f, 6);
    let of = get_u32(&f, 3);
    let ot = get_u32(&f, 4);
    if !float::f32_lt(float::ZERO, run_time) || !float::f32_in_range(float::ZERO, of, float::ONE)
        || !float::f32_in_range(float::ZERO, ot, float::ONE) {
        return Err(Error::Invalid);
    }
    let name = ad.node_from_index(get_u32(&f, 0))?;
    let sf = state_of_bits_exec(get_u16(&f, 1))?;
    let st = state_of_bits_exec(get_u16(&f, 2))?;
    Ok(
        ObjectOpacityFromTo {
            name,
            opacity_from: ObjectOpacity { opacity: of, state: sf },
            opacity_to: ObjectOpacity { opacity: ot, state: st },
            run_time,
            opacity_delta: get_u32(&f, 5),
        },
    )
}

/// Writes an `OBJECT_OPACITY_FROM_TO` record.
pub fn write(v: &ObjectOpacityFromTo<Vec<u8>>, ad: &AnimDef, out: &mut Vec<u8>) -> (r: Result<
    (),
    Error,
>)
    ensures
        match serialize(ad@, v.deep_view()) {
            Some(b) => r is Ok && final(out)@ == old(out)@ + b,
            None => r == Err::<(), Error>(Error::Invalid) && final(out)@ == old(out)@,
        },
{
    let ni = ad.node_to_index(&v.name)?;
    let fs = vec![
        Fld::U32(ni as u32),
        Fld::U16(state_bits_exec(v.opacity_from.state)),
        Fld::U16(state_bits_exec(v.opacity_to.state)),
        Fld::U32(v.opacity_from.opacity),
        Fld::U32(v.opacity_to.opacity),
        Fld::U32(v.opacity_delta),
        Fld::U32(v.run_time),
    ];
    proof {
        assert(fields_view(fs@) =~= to_fields(ad@, v.deep_view()).unwrap());
    }
    encode_record(&fs, out);
    Ok(())
}

/// Writing an event that was read, then reading it again, gives the same
/// event.
pub proof fn lemma_reread(ad: AnimDefV, s: Seq<u8>)
    requires
        parse(ad, s) is Some,
    ensures
        serialize(ad, parse(ad, s).unwrap()) matches Some(b) && parse(ad, b) == parse(ad, s),
{
    let f = decode(layout(), s);
    lemma_name_reread(ad.nodes, w32(f, 0) as int);
    let g = to_fields(ad, parse(ad, s).unwrap()).unwrap();
    assert(conforms_all(g, layout()));
    lemma_decode_encode(g, layout());
    lemma_encode_size(g, layout());
    reveal_with_fuel(size, 8);
}

/// A record that is written has the record's size.
pub proof fn lemma_written_size(ad: AnimDefV, v: ObjectOpacityFromTo<Seq<u8>>)
    requires
        serialize(ad, v) is Some,
    ensures
        serialize(ad, v).unwrap().len() == SIZE,
{
    let g = to_fields(ad, v).unwrap();
    assert(conforms_all(g, layout()));
    lemma_encode_size(g, layout());
    reveal_with_fuel(size, 8);
}

/// The record is written back exactly as read: always.
pub open spec fn exact_record(ad: AnimDefV, s: Seq<u8>) -> bool {
    true
}

/// Writing the event of a record gives the record back, where the nodes of the
/// definition are distinct and the record is written back exactly.
pub proof fn lemma_exact(ad: AnimDefV, s: Seq<u8>)
    requires
        parse(ad, s) is Some,
        crate::anim_def::unique_names(ad.nodes),
        exact_record(ad, s),
    ensures
        serialize(ad, parse(ad, s).unwrap()) == Some(s),
{
    let f = decode(layout(), s);
    reveal_with_fuel(size, 8);
    lemma_decode_conforms(layout(), s);
    lemma_encode_decode(layout(), s);
    lemma_conforming_fields(f, layout());
    lemma_index_of_name_at(ad.nodes, w32(f, 0) as int);
    assert(to_fields(ad, parse(ad, s).unwrap()).unwrap() =~= f);
}

/// The offset of each field of the record.
proof fn lemma_offsets()
    ensures
        size(layout().take(0)) == 0,
        size(layout().take(1)) == 4,
        size(layout().take(2)) == 6,
        size(layout().take(3)) == 8,
        size(layout().take(4)) == 12,
        size(layout().take(5)) == 16,
        size(layout().take(6)) == 20,
{
    reveal_with_fuel(size, 8);
    assert(layout().take(0) =~= Seq::<Kind>::empty());
    assert(layout().take(1) =~= seq![Kind::U32]);
    assert(layout().take(2) =~= seq![Kind::U32, Kind::U16]);
    assert(layout().take(3) =~= seq![Kind::U32, Kind::U16, Kind::U16]);
    assert(layout().take(4) =~= seq![Kind::U32, Kind::U16, Kind::U16, Kind::U32]);
    assert(layout().take(5) =~= seq![Kind::U32, Kind::U16, Kind::U16, Kind::U32, Kind::U32]);
    assert(layout().take(6) =~= seq![Kind::U32, Kind::U16, Kind::U16, Kind::U32, Kind::U32, Kind::U32]);
}

/// An event read from a record holds the record's numbers, little-endian:
/// its node is the one that the number at offset 0 refers to; each state,
/// from and to, is unset, `false` or `true` where the two-byte number at
/// offset 4 (from) or 6 (to) is `0xFFFF`, `0` or `1`; and the opacities
/// from and to, the change and the run time are the numbers at offsets 8,
/// 12, 16 and 20.
pub proof fn lemma_read_bytes(ad: AnimDefV, s: Seq<u8>)
    requires
        parse(ad, s) is Some,
    ensures
        ({
            let v = parse(ad, s).unwrap();
            &&& name_at(ad.nodes, crate::record::le32_at(s, 0) as int) == Some(v.name)
            &&& match v.opacity_from.state {
                None => crate::record::le16_at(s, 4) == 0xFFFFu16,
                Some(false) => crate::record::le16_at(s, 4) == 0u16,
                Some(true) => crate::record::le16_at(s, 4) == 1u16,
            }
            &&& match v.opacity_to.state {
                None => crate::record::le16_at(s, 6) == 0xFFFFu16,
                Some(false) => crate::record::le16_at(s, 6) == 0u16,
                Some(true) => crate::record::le16_at(s, 6) == 1u16,
            }
            &&& crate::record::le32_at(s, 8) == v.opacity_from.opacity
            &&& crate::record::le32_at(s, 12) == v.opacity_to.opacity
            &&& crate::record::le32_at(s, 16) == v.opacity_delta
            &&& crate::record::le32_at(s, 20) == v.run_time
        }),
{
    lemma_offsets();
    crate::record::lemma_numbers_at(layout(), s, 0);
    crate::record::lemma_numbers_at(layout(), s, 1);
    crate::record::lemma_numbers_at(layout(), s, 2);
    crate::record::lemma_numbers_at(layout(), s, 3);
    crate::record::lemma_numbers_at(layout(), s, 4);
    crate::record::lemma_numbers_at(layout(), s, 5);
    crate::record::lemma_numbers_at(layout(), s, 6);
}

/// The record written for an event holds, little-endian: at offset 0 a
/// number that refers to its node; at offsets 4 and 6 `0xFFFF`, `0` or `1`
/// for a state, from and to, that is unset, `false` or `true`; and the
/// opacities from and to, the change and the run time at offsets 8, 12, 16
/// and 20.
pub proof fn lemma_written_bytes(ad: AnimDefV, v: ObjectOpacityFromTo<Seq<u8>>)
    requires
        serialize(ad, v) is Some,
    ensures
        ({
            let b = serialize(ad, v).unwrap();
            &&& name_at(ad.nodes, crate::record::le32_at(b, 0) as int) == Some(v.name)
            &&& match v.opacity_from.state {
                None => crate::record::le16_at(b, 4) == 0xFFFFu16,
                Some(false) => crate::record::le16_at(b, 4) == 0u16,
                Some(true) => crate::record::le16_at(b, 4) == 1u16,
            }
            &&& match v.opacity_to.state {
                None => crate::record::le16_at(b, 6) == 0xFFFFu16,
                Some(false) => crate::record::le16_at(b, 6) == 0u16,
                Some(true) => crate::record::le16_at(b, 6) == 1u16,
            }
            &&& crate::record::le32_at(b, 8) == v.opacity_from.opacity
            &&& crate::record::le32_at(b, 12) == v.opacity_to.opacity
            &&& crate::record::le32_at(b, 16) == v.opacity_delta
            &&& crate::record::le32_at(b, 20) == v.run_time
        }),
{
    let g = to_fields(ad, v).unwrap();
    assert(conforms_all(g, layout())) by {
        assert forall|k: int| 0 <= k < g.len() implies #[trigger] crate::record::conforms(
            g[k],
            layout()[k],
        ) by {}
    }
    lemma_offsets();
    crate::anim_def::lemma_name_at_index_of(ad.nodes, v.name);
    crate::record::lemma_numbers_written(g, layout(), 0);
    crate::record::lemma_numbers_written(g, layout(), 1);
    crate::record::lemma_numbers_written(g, layout(), 2);
    crate::record::lemma_numbers_written(g, layout(), 3);
    crate::record::lemma_numbers_written(g, layout(), 4);
    crate::record::lemma_numbers_written(g, layout(), 5);
    crate::record::lemma_numbers_written(g, layout(), 6);
}

} // verus!
