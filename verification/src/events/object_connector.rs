//! `OBJECT_CONNECTOR` (18): stretches a node between two nodes or positions.
//!
//! The record stores, for each end, a start and end parameter and their
//! per-second change (`delta`). The change is `(end - start) / run_time`, a
//! floating-point computation; this module keeps the stored changes as they
//! are and leaves comparing them with the computed ones to the caller.
use vstd::prelude::*;
use crate::anim_def::{
    index_of, input_node_name, input_node_name_exec, lemma_index_of_name_at, lemma_index_of_some,
    lemma_name_at_index_of, name_at, unique_names, AnimDef, AnimDefV,
};
use crate::error::Error;
use crate::flags::{group_flags, bit, bit_exec, with, with_exec};
use crate::float;
use crate::model::{opt_name, vec3_is_zero, vec3_is_zero_exec, vec3_no_neg_zero, Range, Vec3};
use crate::record::{
    conforms_all, decode, decode_record, encode, encode_record, fields_view, get_u16, get_u32,
    lemma_conforming_fields, lemma_decode_conforms, lemma_decode_encode, lemma_encode_decode,
    lemma_encode_size, size, w16, w32, FieldV, Fld, Kind,
};
use crate::text::bytes_eq;

verus! {

/// One end of a connector: a position, or the input position.
#[derive(Clone, Copy, Debug, PartialEq, Eq, Structural)]
pub enum ConnectorPos {
    Pos(Vec3),
    Input,
}

/// The parameter along the connector: one value, or a range.
#[derive(Clone, Copy, Debug, PartialEq, Eq, Structural)]
pub enum ConnectorTime {
    Scalar(u32),
    Range(Range),
}

/// An `OBJECT_CONNECTOR` event.
#[derive(Debug)]
pub struct ObjectConnector<N> {
    pub name: N,
    pub from_node: Option<N>,
    pub to_node: Option<N>,
    pub from_pos: Option<ConnectorPos>,
    pub to_pos: Option<ConnectorPos>,
    pub from_t: Option<ConnectorTime>,
    pub to_t: Option<ConnectorTime>,
    pub run_time: u32,
    pub max_length: Option<u32>,
    /// The stored per-second change of the start parameter.
    pub from_t_delta: u32,
    /// The stored per-second change of the end parameter.
    pub to_t_delta: u32,
}

impl DeepView for ObjectConnector<Vec<u8>> {
    type V = ObjectConnector<Seq<u8>>;

    open spec fn deep_view(&self) -> ObjectConnector<Seq<u8>> {
        ObjectConnector {
            name: self.name@,
            from_node: opt_name(self.from_node),
            to_node: opt_name(self.to_node),
            from_pos: self.from_pos,
            to_pos: self.to_pos,
            from_t: self.from_t,
            to_t: self.to_t,
            run_time: self.run_time,
            max_length: self.max_length,
            from_t_delta: self.from_t_delta,
            to_t_delta: self.to_t_delta,
        }
    }
}

/// Size of the record.
pub const SIZE: u32 = 76;

/// Fields: flags, node index, from index, to index, padding, from position,
/// to position, from start/end/delta/current, to start/end/delta/current,
/// run time, maximum length.
pub open spec fn layout() -> Seq<Kind> {
    seq![
        Kind::U32, Kind::U16, Kind::U16, Kind::U16, Kind::U16,
        Kind::U32, Kind::U32, Kind::U32, Kind::U32, Kind::U32, Kind::U32,
        Kind::U32, Kind::U32, Kind::U32, Kind::U32, Kind::U32, Kind::U32, Kind::U32, Kind::U32,
        Kind::U32, Kind::U32,
    ]
}

fn layout_exec() -> (r: Vec<Kind>)
    ensures
        r@ == layout(),
        size(layout()) == SIZE,
{
    let r = vec![
        Kind::U32, Kind::U16, Kind::U16, Kind::U16, Kind::U16,
        Kind::U32, Kind::U32, Kind::U32, Kind::U32, Kind::U32, Kind::U32,
        Kind::U32, Kind::U32, Kind::U32, Kind::U32, Kind::U32, Kind::U32, Kind::U32, Kind::U32,
        Kind::U32, Kind::U32,
    ];
    proof {
        assert(r@ =~= layout());
        reveal_with_fuel(size, 22);
    }
    r
}

// Flag bits.
pub const FROM_NODE: u32 = 0;
pub const FROM_INPUT_NODE: u32 = 1;
pub const FROM_POS: u32 = 3;
pub const FROM_INPUT_POS: u32 = 4;
pub const TO_NODE: u32 = 5;
pub const TO_INPUT_NODE: u32 = 6;
pub const TO_POS: u32 = 8;
pub const TO_INPUT_POS: u32 = 9;
pub const FROM_T: u32 = 10;
pub const FROM_T_RANGE: u32 = 11;
pub const TO_T: u32 = 12;
pub const TO_T_RANGE: u32 = 13;
pub const MAX_LENGTH: u32 = 15;

/// The flag word with the given bits set.
#[verifier::opaque]
pub open spec fn word(
    from_node: bool,
    from_input_node: bool,
    from_pos: bool,
    from_input_pos: bool,
    to_node: bool,
    to_input_node: bool,
    to_pos: bool,
    to_input_pos: bool,
    from_t: bool,
    from_t_range: bool,
    to_t: bool,
    to_t_range: bool,
    max_length: bool,
) -> u32 {
    with(with(with(with(with(with(with(with(with(with(with(with(with(
        0, FROM_NODE, from_node), FROM_INPUT_NODE, from_input_node), FROM_POS, from_pos),
        FROM_INPUT_POS, from_input_pos), TO_NODE, to_node), TO_INPUT_NODE, to_input_node),
        TO_POS, to_pos), TO_INPUT_POS, to_input_pos), FROM_T, from_t), FROM_T_RANGE,
        from_t_range), TO_T, to_t), TO_T_RANGE, to_t_range), MAX_LENGTH, max_length)
}

/// The bits of a flag word are the ones it was built with, and it holds
/// no other.
pub proof fn lemma_word(
    b0: bool, b1: bool, b3: bool, b4: bool, b5: bool, b6: bool, b8: bool, b9: bool,
    b10: bool, b11: bool, b12: bool, b13: bool, b15: bool,
)
    ensures
        ({
            let x = word(b0, b1, b3, b4, b5, b6, b8, b9, b10, b11, b12, b13, b15);
            &&& bit(x, FROM_NODE) == b0
            &&& bit(x, FROM_INPUT_NODE) == b1
            &&& bit(x, FROM_POS) == b3
            &&& bit(x, FROM_INPUT_POS) == b4
            &&& bit(x, TO_NODE) == b5
            &&& bit(x, TO_INPUT_NODE) == b6
            &&& bit(x, TO_POS) == b8
            &&& bit(x, TO_INPUT_POS) == b9
            &&& bit(x, FROM_T) == b10
            &&& bit(x, FROM_T_RANGE) == b11
            &&& bit(x, TO_T) == b12
            &&& bit(x, TO_T_RANGE) == b13
            &&& bit(x, MAX_LENGTH) == b15
            &&& known(x)
        }),
{
    broadcast use group_flags;

    reveal(word);
    reveal(known);
}

/// The flag word holds only bits that the record knows.
#[verifier::opaque]
pub open spec fn known(x: u32) -> bool {
    x == word(
        bit(x, FROM_NODE), bit(x, FROM_INPUT_NODE), bit(x, FROM_POS), bit(x, FROM_INPUT_POS),
        bit(x, TO_NODE), bit(x, TO_INPUT_NODE), bit(x, TO_POS), bit(x, TO_INPUT_POS),
        bit(x, FROM_T), bit(x, FROM_T_RANGE), bit(x, TO_T), bit(x, TO_T_RANGE),
        bit(x, MAX_LENGTH),
    )
}

fn word_exec(
    from_node: bool,
    from_input_node: bool,
    from_pos: bool,
    from_input_pos: bool,
    to_node: bool,
    to_input_node: bool,
    to_pos: bool,
    to_input_pos: bool,
    from_t: bool,
    from_t_range: bool,
    to_t: bool,
    to_t_range: bool,
    max_length: bool,
) -> (r: u32)
    ensures
        r == word(
            from_node, from_input_node, from_pos, from_input_pos, to_node, to_input_node,
            to_pos, to_input_pos, from_t, from_t_range, to_t, to_t_range, max_length,
        ),
{
    reveal(word);
    let mut x: u32 = 0;
    x = with_exec(x, FROM_NODE, from_node);
    x = with_exec(x, FROM_INPUT_NODE, from_input_node);
    x = with_exec(x, FROM_POS, from_pos);
    x = with_exec(x, FROM_INPUT_POS, from_input_pos);
    x = with_exec(x, TO_NODE, to_node);
    x = with_exec(x, TO_INPUT_NODE, to_input_node);
    x = with_exec(x, TO_POS, to_pos);
    x = with_exec(x, TO_INPUT_POS, to_input_pos);
    x = with_exec(x, FROM_T, from_t);
    x = with_exec(x, FROM_T_RANGE, from_t_range);
    x = with_exec(x, TO_T, to_t);
    x = with_exec(x, TO_T_RANGE, to_t_range);
    x = with_exec(x, MAX_LENGTH, max_length);
    x
}

fn known_exec(x: u32) -> (r: bool)
    ensures
        r == known(x),
{
    reveal(known);
    x == word_exec(
        bit_exec(x, FROM_NODE), bit_exec(x, FROM_INPUT_NODE), bit_exec(x, FROM_POS),
        bit_exec(x, FROM_INPUT_POS), bit_exec(x, TO_NODE), bit_exec(x, TO_INPUT_NODE),
        bit_exec(x, TO_POS), bit_exec(x, TO_INPUT_POS), bit_exec(x, FROM_T),
        bit_exec(x, FROM_T_RANGE), bit_exec(x, TO_T), bit_exec(x, TO_T_RANGE),
        bit_exec(x, MAX_LENGTH),
    )
}

/// One node end: a node, the input node, or none; `None` where the bits
/// and the index contradict each other or the index refers to no node.
#[verifier::opaque]
pub open spec fn node_end(ad: AnimDefV, node: bool, input: bool, index: u16) -> Option<
    Option<Seq<u8>>,
> {
    if node {
        if input {
            None
        } else {
            match name_at(ad.nodes, index as int) {
                Some(n) => Some(Some(n)),
                None => None,
            }
        }
    } else if index != 0 {
        None
    } else if input {
        Some(Some(input_node_name()))
    } else {
        Some(None)
    }
}

fn node_end_exec(ad: &AnimDef, node: bool, input: bool, index: u16) -> (r: Result<
    Option<Vec<u8>>,
    Error,
>)
    ensures
        match node_end(ad@, node, input, index) {
            Some(o) => r matches Ok(x) && opt_name(x) == o,
            None => r == Err::<Option<Vec<u8>>, Error>(Error::Invalid),
        },
{
    reveal(node_end);
    if node {
        if input {
            return Err(Error::Invalid);
        }
        let n = ad.node_from_index(index as u32)?;
        Ok(Some(n))
    } else if index != 0 {
        Err(Error::Invalid)
    } else if input {
        Ok(Some(input_node_name_exec()))
    } else {
        Ok(None)
    }
}

/// One position end.
#[verifier::opaque]
pub open spec fn pos_end(pos: bool, input: bool, p: Vec3) -> Option<Option<ConnectorPos>> {
    if pos {
        if input {
            None
        } else {
            Some(Some(ConnectorPos::Pos(p)))
        }
    } else if !vec3_is_zero(p) {
        None
    } else if input {
        Some(Some(ConnectorPos::Input))
    } else {
        Some(None)
    }
}

fn pos_end_exec(pos: bool, input: bool, p: Vec3) -> (r: Result<Option<ConnectorPos>, Error>)
    ensures
        match pos_end(pos, input, p) {
            Some(o) => r == Ok::<Option<ConnectorPos>, Error>(o),
            None => r == Err::<Option<ConnectorPos>, Error>(Error::Invalid),
        },
{
    reveal(pos_end);
    if pos {
        if input {
            Err(Error::Invalid)
        } else {
            Ok(Some(ConnectorPos::Pos(p)))
        }
    } else if !vec3_is_zero_exec(p) {
        Err(Error::Invalid)
    } else if input {
        Ok(Some(ConnectorPos::Input))
    } else {
        Ok(None)
    }
}

/// One parameter end; without a value, start and end must both equal
/// `default`.
#[verifier::opaque]
pub open spec fn time_end(scalar: bool, range: bool, start: u32, end: u32, default: u32) -> Option<
    Option<ConnectorTime>,
> {
    if range {
        if scalar {
            None
        } else {
            Some(Some(ConnectorTime::Range(Range { min: start, max: end })))
        }
    } else if scalar {
        if float::eq(start, end) {
            Some(Some(ConnectorTime::Scalar(start)))
        } else {
            None
        }
    } else if float::eq(start, default) && float::eq(end, default) {
        Some(None)
    } else {
        None
    }
}

fn time_end_exec(scalar: bool, range: bool, start: u32, end: u32, default: u32) -> (r: Result<
    Option<ConnectorTime>,
    Error,
>)
    ensures
        match time_end(scalar, range, start, end, default) {
            Some(o) => r == Ok::<Option<ConnectorTime>, Error>(o),
            None => r == Err::<Option<ConnectorTime>, Error>(Error::Invalid),
        },
{
    reveal(time_end);
    if range {
        if scalar {
            Err(Error::Invalid)
        } else {
            Ok(Some(ConnectorTime::Range(Range { min: start, max: end })))
        }
    } else if scalar {
        if float::f32_eq(start, end) {
            Ok(Some(ConnectorTime::Scalar(start)))
        } else {
            Err(Error::Invalid)
        }
    } else if float::f32_eq(start, default) && float::f32_eq(end, default) {
        Ok(None)
    } else {
        Err(Error::Invalid)
    }
}

/// The record as stored.
#[derive(Clone, Copy, Debug, PartialEq, Eq, Structural)]
pub struct Raw {
    pub flags: u32,
    pub node_index: u16,
    pub from_index: u16,
    pub to_index: u16,
    pub pad10: u16,
    pub from_pos: Vec3,
    pub to_pos: Vec3,
    pub from_t_start: u32,
    pub from_t_end: u32,
    pub from_t_delta: u32,
    pub from_t: u32,
    pub to_t_start: u32,
    pub to_t_end: u32,
    pub to_t_delta: u32,
    pub to_t: u32,
    pub run_time: u32,
    pub max_length: u32,
}

/// The stored record of decoded fields.
pub open spec fn raw_of(f: Seq<FieldV>) -> Raw {
    Raw {
        flags: w32(f, 0),
        node_index: w16(f, 1),
        from_index: w16(f, 2),
        to_index: w16(f, 3),
        pad10: w16(f, 4),
        from_pos: Vec3 { x: w32(f, 5), y: w32(f, 6), z: w32(f, 7) },
        to_pos: Vec3 { x: w32(f, 8), y: w32(f, 9), z: w32(f, 10) },
        from_t_start: w32(f, 11),
        from_t_end: w32(f, 12),
        from_t_delta: w32(f, 13),
        from_t: w32(f, 14),
        to_t_start: w32(f, 15),
        to_t_end: w32(f, 16),
        to_t_delta: w32(f, 17),
        to_t: w32(f, 18),
        run_time: w32(f, 19),
        max_length: w32(f, 20),
    }
}

/// The fields of a stored record.
pub open spec fn fields_of(r: Raw) -> Seq<FieldV> {
    seq![
        FieldV::U32(r.flags),
        FieldV::U16(r.node_index),
        FieldV::U16(r.from_index),
        FieldV::U16(r.to_index),
        FieldV::U16(r.pad10),
        FieldV::U32(r.from_pos.x),
        FieldV::U32(r.from_pos.y),
        FieldV::U32(r.from_pos.z),
        FieldV::U32(r.to_pos.x),
        FieldV::U32(r.to_pos.y),
        FieldV::U32(r.to_pos.z),
        FieldV::U32(r.from_t_start),
        FieldV::U32(r.from_t_end),
        FieldV::U32(r.from_t_delta),
        FieldV::U32(r.from_t),
        FieldV::U32(r.to_t_start),
        FieldV::U32(r.to_t_end),
        FieldV::U32(r.to_t_delta),
        FieldV::U32(r.to_t),
        FieldV::U32(r.run_time),
        FieldV::U32(r.max_length),
    ]
}

/// Fields and stored records correspond one to one.
pub proof fn lemma_raw(r: Raw, f: Seq<FieldV>)
    ensures
        raw_of(fields_of(r)) == r,
        conforms_all(fields_of(r), layout()),
        conforms_all(f, layout()) ==> fields_of(raw_of(f)) == f,
{
    if conforms_all(f, layout()) {
        lemma_conforming_fields(f, layout());
        assert(fields_of(raw_of(f)) =~= f);
    }
}

/// The checks on a stored record that do not involve the animation
/// definition: a run time of at least zero, only known flags, zero padding,
/// zero current parameters, and a maximum length that is positive where set
/// and zero otherwise.
pub open spec fn raw_ok(r: Raw) -> bool {
    &&& float::le(float::ZERO, r.run_time)
    &&& known(r.flags)
    &&& r.pad10 == 0
    &&& float::is_zero(r.from_t)
    &&& float::is_zero(r.to_t)
    &&& bit(r.flags, MAX_LENGTH) ==> float::lt(float::ZERO, r.max_length)
    &&& !bit(r.flags, MAX_LENGTH) ==> float::is_zero(r.max_length)
}

/// The event that a stored record describes, if it describes one.
#[verifier::opaque]
pub open spec fn from_raw(ad: AnimDefV, r: Raw) -> Option<ObjectConnector<Seq<u8>>> {
    let fl = r.flags;
    if !raw_ok(r) {
        None
    } else {
        match (
            name_at(ad.nodes, r.node_index as int),
            node_end(ad, bit(fl, FROM_NODE), bit(fl, FROM_INPUT_NODE), r.from_index),
            node_end(ad, bit(fl, TO_NODE), bit(fl, TO_INPUT_NODE), r.to_index),
            pos_end(bit(fl, FROM_POS), bit(fl, FROM_INPUT_POS), r.from_pos),
            pos_end(bit(fl, TO_POS), bit(fl, TO_INPUT_POS), r.to_pos),
            time_end(bit(fl, FROM_T), bit(fl, FROM_T_RANGE), r.from_t_start, r.from_t_end, float::ZERO),
            time_end(bit(fl, TO_T), bit(fl, TO_T_RANGE), r.to_t_start, r.to_t_end, float::ONE),
        ) {
            (
                Some(name),
                Some(from_node),
                Some(to_node),
                Some(from_pos),
                Some(to_pos),
                Some(from_t),
                Some(to_t),
            ) => Some(
                ObjectConnector {
                    name,
                    from_node,
                    to_node,
                    from_pos,
                    to_pos,
                    from_t,
                    to_t,
                    run_time: r.run_time,
                    max_length: if bit(fl, MAX_LENGTH) {
                        Some(r.max_length)
                    } else {
                        None
                    },
                    from_t_delta: r.from_t_delta,
                    to_t_delta: r.to_t_delta,
                },
            ),
            _ => None,
        }
    }
}

/// The parts of the event of a stored record.
pub open spec fn parts_of(ad: AnimDefV, r: Raw) -> (
    Option<Seq<u8>>,
    Option<Option<Seq<u8>>>,
    Option<Option<Seq<u8>>>,
    Option<Option<ConnectorPos>>,
    Option<Option<ConnectorPos>>,
    Option<Option<ConnectorTime>>,
    Option<Option<ConnectorTime>>,
) {
    let fl = r.flags;
    (
        name_at(ad.nodes, r.node_index as int),
        node_end(ad, bit(fl, FROM_NODE), bit(fl, FROM_INPUT_NODE), r.from_index),
        node_end(ad, bit(fl, TO_NODE), bit(fl, TO_INPUT_NODE), r.to_index),
        pos_end(bit(fl, FROM_POS), bit(fl, FROM_INPUT_POS), r.from_pos),
        pos_end(bit(fl, TO_POS), bit(fl, TO_INPUT_POS), r.to_pos),
        time_end(bit(fl, FROM_T), bit(fl, FROM_T_RANGE), r.from_t_start, r.from_t_end, float::ZERO),
        time_end(bit(fl, TO_T), bit(fl, TO_T_RANGE), r.to_t_start, r.to_t_end, float::ONE),
    )
}

/// What `from_raw` gives, part by part.
pub proof fn lemma_from_raw(ad: AnimDefV, r: Raw)
    ensures
        ({
            let p = parts_of(ad, r);
            let ok = raw_ok(r) && p.0 is Some && p.1 is Some && p.2 is Some && p.3 is Some
                && p.4 is Some && p.5 is Some && p.6 is Some;
            &&& from_raw(ad, r) is Some <==> ok
            &&& ok ==> from_raw(ad, r) == Some(
                ObjectConnector {
                    name: p.0.unwrap(),
                    from_node: p.1.unwrap(),
                    to_node: p.2.unwrap(),
                    from_pos: p.3.unwrap(),
                    to_pos: p.4.unwrap(),
                    from_t: p.5.unwrap(),
                    to_t: p.6.unwrap(),
                    run_time: r.run_time,
                    max_length: if bit(r.flags, MAX_LENGTH) {
                        Some(r.max_length)
                    } else {
                        None
                    },
                    from_t_delta: r.from_t_delta,
                    to_t_delta: r.to_t_delta,
                },
            )
        }),
{
    reveal(from_raw);
}

/// The bits and index of a node end.
#[verifier::opaque]
pub open spec fn node_end_fields(ad: AnimDefV, o: Option<Seq<u8>>) -> Option<(bool, bool, u16)> {
    match o {
        None => Some((false, false, 0)),
        Some(n) => if n == input_node_name() {
            Some((false, true, 0))
        } else {
            match index_of(ad.nodes, n) {
                Some(i) => Some((true, false, i as u16)),
                None => None,
            }
        },
    }
}

/// The bits and position of a position end.
pub open spec fn pos_end_fields(o: Option<ConnectorPos>) -> (bool, bool, Vec3) {
    match o {
        None => (false, false, Vec3 { x: 0, y: 0, z: 0 }),
        Some(ConnectorPos::Pos(p)) => (true, false, p),
        Some(ConnectorPos::Input) => (false, true, Vec3 { x: 0, y: 0, z: 0 }),
    }
}

/// The bits, start and end of a parameter end.
pub open spec fn time_end_fields(o: Option<ConnectorTime>, default: u32) -> (bool, bool, u32, u32) {
    match o {
        None => (false, false, default, default),
        Some(ConnectorTime::Scalar(t)) => (true, false, t, t),
        Some(ConnectorTime::Range(r)) => (false, true, r.min, r.max),
    }
}

/// The stored record of an event, if it can be written.
#[verifier::opaque]
pub open spec fn to_raw(ad: AnimDefV, v: ObjectConnector<Seq<u8>>) -> Option<Raw> {
    match (
        index_of(ad.nodes, v.name),
        node_end_fields(ad, v.from_node),
        node_end_fields(ad, v.to_node),
    ) {
        (Some(ni), Some(fe), Some(te)) => {
            let fp = pos_end_fields(v.from_pos);
            let tp = pos_end_fields(v.to_pos);
            let ft = time_end_fields(v.from_t, float::ZERO);
            let tt = time_end_fields(v.to_t, float::ONE);
            Some(
                Raw {
                    flags: word(
                        fe.0, fe.1, fp.0, fp.1, te.0, te.1, tp.0, tp.1, ft.0, ft.1, tt.0, tt.1,
                        v.max_length is Some,
                    ),
                    node_index: ni as u16,
                    from_index: fe.2,
                    to_index: te.2,
                    pad10: 0,
                    from_pos: fp.2,
                    to_pos: tp.2,
                    from_t_start: ft.2,
                    from_t_end: ft.3,
                    from_t_delta: v.from_t_delta,
                    from_t: 0,
                    to_t_start: tt.2,
                    to_t_end: tt.3,
                    to_t_delta: v.to_t_delta,
                    to_t: 0,
                    run_time: v.run_time,
                    max_length: match v.max_length {
                        Some(m) => m,
                        None => 0,
                    },
                },
            )
        },
        _ => None,
    }
}

/// The event that a record holds, if it holds one.
pub open spec fn parse(ad: AnimDefV, s: Seq<u8>) -> Option<ObjectConnector<Seq<u8>>> {
    if s.len() == SIZE {
        from_raw(ad, raw_of(decode(layout(), s)))
    } else {
        None
    }
}

/// The record of an event, if it can be written.
pub open spec fn serialize(ad: AnimDefV, v: ObjectConnector<Seq<u8>>) -> Option<Seq<u8>> {
    match to_raw(ad, v) {
        Some(r) => Some(encode(fields_of(r))),
        None => None,
    }
}

/// The record has no `-0.0` where the format only checks for a zero, and a
/// single parameter value is stored twice with the same bits.
pub open spec fn exact(r: Raw) -> bool {
    let fl = r.flags;
    &&& !bit(fl, FROM_POS) ==> vec3_no_neg_zero(r.from_pos)
    &&& !bit(fl, TO_POS) ==> vec3_no_neg_zero(r.to_pos)
    &&& !bit(fl, FROM_T_RANGE) && !bit(fl, FROM_T) ==> r.from_t_start != float::NEG_ZERO
        && r.from_t_end != float::NEG_ZERO
    &&& !bit(fl, FROM_T_RANGE) && bit(fl, FROM_T) ==> r.from_t_start == r.from_t_end
    &&& !bit(fl, TO_T_RANGE) && bit(fl, TO_T) ==> r.to_t_start == r.to_t_end
    &&& r.from_t != float::NEG_ZERO
    &&& r.to_t != float::NEG_ZERO
    &&& !bit(fl, MAX_LENGTH) ==> r.max_length != float::NEG_ZERO
}

fn decode_raw(data: &[u8]) -> (r: Raw)
    requires
        data@.len() == SIZE,
    ensures
        r == raw_of(decode(layout(), data@)),
{
    let l = layout_exec();
    let f = decode_record(data, l.as_slice());
    Raw {
        flags: get_u32(&f, 0),
        node_index: get_u16(&f, 1),
        from_index: get_u16(&f, 2),
        to_index: get_u16(&f, 3),
        pad10: get_u16(&f, 4),
        from_pos: Vec3 { x: get_u32(&f, 5), y: get_u32(&f, 6), z: get_u32(&f, 7) },
        to_pos: Vec3 { x: get_u32(&f, 8), y: get_u32(&f, 9), z: get_u32(&f, 10) },
        from_t_start: get_u32(&f, 11),
        from_t_end: get_u32(&f, 12),
        from_t_delta: get_u32(&f, 13),
        from_t: get_u32(&f, 14),
        to_t_start: get_u32(&f, 15),
        to_t_end: get_u32(&f, 16),
        to_t_delta: get_u32(&f, 17),
        to_t: get_u32(&f, 18),
        run_time: get_u32(&f, 19),
        max_length: get_u32(&f, 20),
    }
}

fn encode_raw(r: Raw, out: &mut Vec<u8>)
    ensures
        final(out)@ == old(out)@ + encode(fields_of(r)),
{
    let fs = vec![
        Fld::U32(r.flags),
        Fld::U16(r.node_index),
        Fld::U16(r.from_index),
        Fld::U16(r.to_index),
        Fld::U16(r.pad10),
        Fld::U32(r.from_pos.x),
        Fld::U32(r.from_pos.y),
        Fld::U32(r.from_pos.z),
        Fld::U32(r.to_pos.x),
        Fld::U32(r.to_pos.y),
        Fld::U32(r.to_pos.z),
        Fld::U32(r.from_t_start),
        Fld::U32(r.from_t_end),
        Fld::U32(r.from_t_delta),
        Fld::U32(r.from_t),
        Fld::U32(r.to_t_start),
        Fld::U32(r.to_t_end),
        Fld::U32(r.to_t_delta),
        Fld::U32(r.to_t),
        Fld::U32(r.run_time),
        Fld::U32(r.max_length),
    ];
    proof {
        assert(fields_view(fs@) =~= fields_of(r));
    }
    encode_record(&fs, out);
}

fn raw_ok_exec(r: Raw) -> (b: bool)
    ensures
        b == raw_ok(r),
{
    let has_max = bit_exec(r.flags, MAX_LENGTH);
    float::f32_le(float::ZERO, r.run_time) && known_exec(r.flags) && r.pad10 == 0
        && float::f32_is_zero(r.from_t) && float::f32_is_zero(r.to_t) && (!has_max
        || float::f32_lt(float::ZERO, r.max_length)) && (has_max || float::f32_is_zero(
        r.max_length,
    ))
}

/// The event of a stored record.
pub fn from_raw_exec(ad: &AnimDef, r: Raw) -> (res: Result<ObjectConnector<Vec<u8>>, Error>)
    ensures
        match from_raw(ad@, r) {
            Some(v) => res matches Ok(x) && x.deep_view() == v,
            None => res == Err::<ObjectConnector<Vec<u8>>, Error>(Error::Invalid),
        },
{
    reveal(from_raw);
    let fl = r.flags;
    if !raw_ok_exec(r) {
        return Err(Error::Invalid);
    }
    let name = ad.node_from_index(r.node_index as u32)?;
    let from_node = node_end_exec(
        ad,
        bit_exec(fl, FROM_NODE),
        bit_exec(fl, FROM_INPUT_NODE),
        r.from_index,
    )?;
    let to_node = node_end_exec(ad, bit_exec(fl, TO_NODE), bit_exec(fl, TO_INPUT_NODE), r.to_index)?;
    let from_pos = pos_end_exec(bit_exec(fl, FROM_POS), bit_exec(fl, FROM_INPUT_POS), r.from_pos)?;
    let to_pos = pos_end_exec(bit_exec(fl, TO_POS), bit_exec(fl, TO_INPUT_POS), r.to_pos)?;
    let from_t = time_end_exec(
        bit_exec(fl, FROM_T),
        bit_exec(fl, FROM_T_RANGE),
        r.from_t_start,
        r.from_t_end,
        float::ZERO,
    )?;
    let to_t = time_end_exec(
        bit_exec(fl, TO_T),
        bit_exec(fl, TO_T_RANGE),
        r.to_t_start,
        r.to_t_end,
        float::ONE,
    )?;
    Ok(ObjectConnector {
        name,
        from_node,
        to_node,
        from_pos,
        to_pos,
        from_t,
        to_t,
        run_time: r.run_time,
        max_length: if bit_exec(fl, MAX_LENGTH) {
            Some(r.max_length)
        } else {
            None
        },
        from_t_delta: r.from_t_delta,
        to_t_delta: r.to_t_delta,
    })
}

/// Reads an `OBJECT_CONNECTOR` record.
pub fn read(data: &[u8], ad: &AnimDef) -> (r: Result<ObjectConnector<Vec<u8>>, Error>)
    ensures
        match parse(ad@, data@) {
            Some(v) => r matches Ok(x) && x.deep_view() == v,
            None => r == Err::<ObjectConnector<Vec<u8>>, Error>(Error::Invalid),
        },
{
    if data.len() != 76 {
        return Err(Error::Invalid);
    }
    let raw = decode_raw(data);
    from_raw_exec(ad, raw)
}

fn node_end_fields_exec(ad: &AnimDef, o: &Option<Vec<u8>>) -> (r: Result<(bool, bool, u16), Error>)
    ensures
        match node_end_fields(ad@, opt_name(*o)) {
            Some(t) => r == Ok::<(bool, bool, u16), Error>(t),
            None => r == Err::<(bool, bool, u16), Error>(Error::Invalid),
        },
{
    reveal(node_end_fields);
    match o {
        None => Ok((false, false, 0)),
        Some(n) => {
            let input = input_node_name_exec();
            if bytes_eq(n, &input) {
                Ok((false, true, 0))
            } else {
                let i = ad.node_to_index(n)?;
                Ok((true, false, i))
            }
        },
    }
}

fn pos_end_fields_exec(o: Option<ConnectorPos>) -> (r: (bool, bool, Vec3))
    ensures
        r == pos_end_fields(o),
{
    match o {
        None => (false, false, Vec3 { x: 0, y: 0, z: 0 }),
        Some(ConnectorPos::Pos(p)) => (true, false, p),
        Some(ConnectorPos::Input) => (false, true, Vec3 { x: 0, y: 0, z: 0 }),
    }
}

fn time_end_fields_exec(o: Option<ConnectorTime>, default: u32) -> (r: (bool, bool, u32, u32))
    ensures
        r == time_end_fields(o, default),
{
    match o {
        None => (false, false, default, default),
        Some(ConnectorTime::Scalar(t)) => (true, false, t, t),
        Some(ConnectorTime::Range(r)) => (false, true, r.min, r.max),
    }
}

/// The stored record of an event.
pub fn to_raw_exec(ad: &AnimDef, v: &ObjectConnector<Vec<u8>>) -> (r: Result<Raw, Error>)
    ensures
        match to_raw(ad@, v.deep_view()) {
            Some(x) => r == Ok::<Raw, Error>(x),
            None => r == Err::<Raw, Error>(Error::Invalid),
        },
{
    reveal(to_raw);
    let ni = ad.node_to_index(&v.name)?;
    let fe = node_end_fields_exec(ad, &v.from_node)?;
    let te = node_end_fields_exec(ad, &v.to_node)?;
    let fp = pos_end_fields_exec(v.from_pos);
    let tp = pos_end_fields_exec(v.to_pos);
    let ft = time_end_fields_exec(v.from_t, float::ZERO);
    let tt = time_end_fields_exec(v.to_t, float::ONE);
    let flags = word_exec(
        fe.0,
        fe.1,
        fp.0,
        fp.1,
        te.0,
        te.1,
        tp.0,
        tp.1,
        ft.0,
        ft.1,
        tt.0,
        tt.1,
        v.max_length.is_some(),
    );
    Ok(Raw {
        flags,
        node_index: ni,
        from_index: fe.2,
        to_index: te.2,
        pad10: 0,
        from_pos: fp.2,
        to_pos: tp.2,
        from_t_start: ft.2,
        from_t_end: ft.3,
        from_t_delta: v.from_t_delta,
        from_t: 0,
        to_t_start: tt.2,
        to_t_end: tt.3,
        to_t_delta: v.to_t_delta,
        to_t: 0,
        run_time: v.run_time,
        max_length: match v.max_length {
            Some(m) => m,
            None => 0,
        },
    })
}

/// Writes an `OBJECT_CONNECTOR` record.
pub fn write(v: &ObjectConnector<Vec<u8>>, ad: &AnimDef, out: &mut Vec<u8>) -> (r: Result<
    (),
    Error,
>)
    ensures
        match serialize(ad@, v.deep_view()) {
            Some(b) => r is Ok && final(out)@ == old(out)@ + b,
            None => r == Err::<(), Error>(Error::Invalid) && final(out)@ == old(out)@,
        },
{
    let raw = to_raw_exec(ad, v)?;
    encode_raw(raw, out);
    Ok(())
}

proof fn lemma_node_end_roundtrip(ad: AnimDefV, node: bool, input: bool, index: u16)
    requires
        node_end(ad, node, input, index) is Some,
    ensures
        node_end_fields(ad, node_end(ad, node, input, index).unwrap()) matches Some(t)
            && node_end(ad, t.0, t.1, t.2) == node_end(ad, node, input, index),
{
    reveal(node_end);
    reveal(node_end_fields);
    if node {
        lemma_index_of_some(ad.nodes, index as int);
        let n = name_at(ad.nodes, index as int).unwrap();
        if n != input_node_name() {
            lemma_name_at_index_of(ad.nodes, n);
        }
    }
}

/// Writing an event that was read, then reading it again, gives the same
/// event.
pub proof fn lemma_reread(ad: AnimDefV, s: Seq<u8>)
    requires
        parse(ad, s) is Some,
    ensures
        serialize(ad, parse(ad, s).unwrap()) matches Some(b) && parse(ad, b) == parse(ad, s),
{
    let r0 = raw_of(decode(layout(), s));
    let v = from_raw(ad, r0).unwrap();
    lemma_raw_roundtrip(ad, r0);
    let r = to_raw(ad, v).unwrap();
    lemma_raw(r, Seq::empty());
    lemma_decode_encode(fields_of(r), layout());
    lemma_encode_size(fields_of(r), layout());
    reveal_with_fuel(size, 22);
}

/// Writing the event of a stored record, then reading it, gives the event.
pub proof fn lemma_raw_roundtrip(ad: AnimDefV, r0: Raw)
    requires
        from_raw(ad, r0) is Some,
    ensures
        to_raw(ad, from_raw(ad, r0).unwrap()) matches Some(r) && from_raw(ad, r) == from_raw(ad, r0),
{
    let v = from_raw(ad, r0).unwrap();
    lemma_from_raw(ad, r0);
    lemma_raw_parts(ad, r0);
    let r = to_raw(ad, v).unwrap();
    assert(v.from_t matches Some(ConnectorTime::Scalar(t)) ==> !float::is_nan(t)) by {
        reveal(time_end);
    }
    assert(v.to_t matches Some(ConnectorTime::Scalar(t)) ==> !float::is_nan(t)) by {
        reveal(time_end);
    }
    lemma_raw_rebuilt(ad, v, r);
}

proof fn lemma_to_raw(
    ad: AnimDefV,
    v: ObjectConnector<Seq<u8>>,
    ni: int,
    fe: (bool, bool, u16),
    te: (bool, bool, u16),
)
    requires
        index_of(ad.nodes, v.name) == Some(ni),
        node_end_fields(ad, v.from_node) == Some(fe),
        node_end_fields(ad, v.to_node) == Some(te),
    ensures
        to_raw(ad, v) matches Some(r) && r.node_index == ni as u16 && r.from_index == fe.2
            && r.to_index == te.2 && r.flags == word(
            fe.0,
            fe.1,
            pos_end_fields(v.from_pos).0,
            pos_end_fields(v.from_pos).1,
            te.0,
            te.1,
            pos_end_fields(v.to_pos).0,
            pos_end_fields(v.to_pos).1,
            time_end_fields(v.from_t, float::ZERO).0,
            time_end_fields(v.from_t, float::ZERO).1,
            time_end_fields(v.to_t, float::ONE).0,
            time_end_fields(v.to_t, float::ONE).1,
            v.max_length is Some,
        ),
{
    reveal(to_raw);
}

/// What an event read from a stored record gives, part by part.
proof fn lemma_v_parts(ad: AnimDefV, r0: Raw) -> (v: ObjectConnector<Seq<u8>>)
    requires
        from_raw(ad, r0) is Some,
    ensures
        v == from_raw(ad, r0).unwrap(),
        name_at(ad.nodes, r0.node_index as int) == Some(v.name),
        node_end(ad, bit(r0.flags, FROM_NODE), bit(r0.flags, FROM_INPUT_NODE), r0.from_index)
            == Some(v.from_node),
        node_end(ad, bit(r0.flags, TO_NODE), bit(r0.flags, TO_INPUT_NODE), r0.to_index) == Some(
            v.to_node,
        ),
{
    lemma_from_raw(ad, r0);
    from_raw(ad, r0).unwrap()
}

#[verifier::spinoff_prover]
#[verifier::rlimit(100)]
proof fn lemma_raw_parts(ad: AnimDefV, r0: Raw)
    requires
        from_raw(ad, r0) is Some,
    ensures
        to_raw(ad, from_raw(ad, r0).unwrap()) is Some,
        ({
            let v = from_raw(ad, r0).unwrap();
            let r = to_raw(ad, v).unwrap();
            let fl = r.flags;
            &&& name_at(ad.nodes, r.node_index as int) == Some(v.name)
            &&& node_end(ad, bit(fl, FROM_NODE), bit(fl, FROM_INPUT_NODE), r.from_index) == Some(
                v.from_node,
            )
            &&& node_end(ad, bit(fl, TO_NODE), bit(fl, TO_INPUT_NODE), r.to_index) == Some(v.to_node)
        }),
{
    let fl0 = r0.flags;
    let v = lemma_v_parts(ad, r0);
    lemma_index_of_some(ad.nodes, r0.node_index as int);
    lemma_name_at_index_of(ad.nodes, v.name);
    lemma_node_end_roundtrip(ad, bit(fl0, FROM_NODE), bit(fl0, FROM_INPUT_NODE), r0.from_index);
    lemma_node_end_roundtrip(ad, bit(fl0, TO_NODE), bit(fl0, TO_INPUT_NODE), r0.to_index);
    let ni = index_of(ad.nodes, v.name).unwrap();
    let fe = node_end_fields(ad, v.from_node).unwrap();
    let te = node_end_fields(ad, v.to_node).unwrap();
    lemma_to_raw(ad, v, ni, fe, te);
    let fp = pos_end_fields(v.from_pos);
    let tp = pos_end_fields(v.to_pos);
    let ft = time_end_fields(v.from_t, float::ZERO);
    let tt = time_end_fields(v.to_t, float::ONE);
    lemma_word(
        fe.0, fe.1, fp.0, fp.1, te.0, te.1, tp.0, tp.1, ft.0, ft.1, tt.0, tt.1,
        v.max_length is Some,
    );
    let r = to_raw(ad, v).unwrap();
    let ghost from_end = node_end(ad, bit(fl0, FROM_NODE), bit(fl0, FROM_INPUT_NODE), r0.from_index);
    let ghost to_end = node_end(ad, bit(fl0, TO_NODE), bit(fl0, TO_INPUT_NODE), r0.to_index);
    assert(from_end.unwrap() == v.from_node);
    assert(to_end.unwrap() == v.to_node);
    assert(node_end(ad, fe.0, fe.1, fe.2) == Some(v.from_node));
    assert(node_end(ad, te.0, te.1, te.2) == Some(v.to_node));
    assert(bit(r.flags, FROM_NODE) == fe.0);
    assert(bit(r.flags, FROM_INPUT_NODE) == fe.1);
    assert(bit(r.flags, TO_NODE) == te.0);
    assert(bit(r.flags, TO_INPUT_NODE) == te.1);
}

proof fn lemma_raw_rebuilt(ad: AnimDefV, v: ObjectConnector<Seq<u8>>, r: Raw)
    requires
        to_raw(ad, v) == Some(r),
        name_at(ad.nodes, r.node_index as int) == Some(v.name),
        node_end(ad, bit(r.flags, FROM_NODE), bit(r.flags, FROM_INPUT_NODE), r.from_index) == Some(
            v.from_node,
        ),
        node_end(ad, bit(r.flags, TO_NODE), bit(r.flags, TO_INPUT_NODE), r.to_index) == Some(
            v.to_node,
        ),
        float::le(float::ZERO, v.run_time),
        v.max_length matches Some(m) ==> float::lt(float::ZERO, m),
        v.from_t matches Some(ConnectorTime::Scalar(t)) ==> !float::is_nan(t),
        v.to_t matches Some(ConnectorTime::Scalar(t)) ==> !float::is_nan(t),
    ensures
        from_raw(ad, r) == Some(v),
{
    reveal(to_raw);
    let fe = node_end_fields(ad, v.from_node).unwrap();
    let te = node_end_fields(ad, v.to_node).unwrap();
    let fp = pos_end_fields(v.from_pos);
    let tp = pos_end_fields(v.to_pos);
    let ft = time_end_fields(v.from_t, float::ZERO);
    let tt = time_end_fields(v.to_t, float::ONE);
    lemma_word(
        fe.0, fe.1, fp.0, fp.1, te.0, te.1, tp.0, tp.1, ft.0, ft.1, tt.0, tt.1,
        v.max_length is Some,
    );
    let fl = r.flags;
    assert(pos_end(bit(fl, FROM_POS), bit(fl, FROM_INPUT_POS), r.from_pos) == Some(v.from_pos)) by {
        reveal(pos_end);
    }
    assert(pos_end(bit(fl, TO_POS), bit(fl, TO_INPUT_POS), r.to_pos) == Some(v.to_pos)) by {
        reveal(pos_end);
    }
    assert(time_end(bit(fl, FROM_T), bit(fl, FROM_T_RANGE), r.from_t_start, r.from_t_end, float::ZERO)
        == Some(v.from_t)) by {
        reveal(time_end);
    }
    assert(time_end(bit(fl, TO_T), bit(fl, TO_T_RANGE), r.to_t_start, r.to_t_end, float::ONE)
        == Some(v.to_t)) by {
        reveal(time_end);
    }
    assert(raw_ok(r));
    lemma_from_raw(ad, r);
}

/// Writing the event of a record gives the record back, where no node name
/// occurs twice or is the input node name, and the record has no `-0.0`
/// where the format only checks for a zero.
pub proof fn lemma_serialize_parse(ad: AnimDefV, s: Seq<u8>)
    requires
        parse(ad, s) is Some,
        unique_names(ad.nodes),
        !ad.nodes.unwrap_or(Seq::empty()).contains(input_node_name()),
        exact(raw_of(decode(layout(), s))),
    ensures
        serialize(ad, parse(ad, s).unwrap()) == Some(s),
{
    let f = decode(layout(), s);
    let r = raw_of(f);
    reveal_with_fuel(size, 22);
    lemma_decode_conforms(layout(), s);
    lemma_encode_decode(layout(), s);
    lemma_raw(r, f);
    lemma_raw_exact(ad, r);
}

/// Writing the event of an exact stored record gives the record back.
pub proof fn lemma_raw_exact(ad: AnimDefV, r: Raw)
    requires
        from_raw(ad, r) is Some,
        unique_names(ad.nodes),
        !ad.nodes.unwrap_or(Seq::empty()).contains(input_node_name()),
        exact(r),
    ensures
        to_raw(ad, from_raw(ad, r).unwrap()) == Some(r),
{
    let fl = r.flags;
    lemma_from_raw(ad, r);
    reveal(node_end);
    lemma_index_of_name_at(ad.nodes, r.node_index as int);
    if bit(fl, FROM_NODE) {
        lemma_index_of_name_at(ad.nodes, r.from_index as int);
        assert(ad.nodes.unwrap()[r.from_index - 1] != input_node_name());
    }
    if bit(fl, TO_NODE) {
        lemma_index_of_name_at(ad.nodes, r.to_index as int);
        assert(ad.nodes.unwrap()[r.to_index - 1] != input_node_name());
    }
    reveal(node_end);
    reveal(pos_end);
    reveal(time_end);
    reveal(node_end_fields);
    let v = from_raw(ad, r).unwrap();
    let fe = node_end_fields(ad, v.from_node).unwrap();
    let te = node_end_fields(ad, v.to_node).unwrap();
    let fp = pos_end_fields(v.from_pos);
    let tp = pos_end_fields(v.to_pos);
    let ft = time_end_fields(v.from_t, float::ZERO);
    let tt = time_end_fields(v.to_t, float::ONE);
    lemma_word(
        fe.0, fe.1, fp.0, fp.1, te.0, te.1, tp.0, tp.1, ft.0, ft.1, tt.0, tt.1,
        v.max_length is Some,
    );
    reveal(known);
    reveal(to_raw);
    let r2 = to_raw(ad, v).unwrap();
    assert(r2.flags == fl);
}

/// A record that is written has the record's size.
pub proof fn lemma_written_size(ad: AnimDefV, v: ObjectConnector<Seq<u8>>)
    requires
        serialize(ad, v) is Some,
    ensures
        serialize(ad, v).unwrap().len() == SIZE,
{
    let r = to_raw(ad, v).unwrap();
    lemma_raw(r, Seq::empty());
    lemma_encode_size(fields_of(r), layout());
    reveal_with_fuel(size, 22);
}

/// The record is written back exactly as read: see `exact`.
pub open spec fn exact_record(ad: AnimDefV, s: Seq<u8>) -> bool {
    exact(raw_of(decode(layout(), s)))
}

/// Writing the event of a record gives the record back, where the nodes of the
/// definition are distinct and none bears the input node's name and the record
/// is written back exactly.
pub proof fn lemma_exact(ad: AnimDefV, s: Seq<u8>)
    requires
        parse(ad, s) is Some,
        crate::anim_def::distinct_nodes(ad),
        exact_record(ad, s),
    ensures
        serialize(ad, parse(ad, s).unwrap()) == Some(s),
{
    lemma_serialize_parse(ad, s);
}

/// The offset of each field of the record.
proof fn lemma_offsets()
    ensures
        size(layout().take(0)) == 0,
        size(layout().take(1)) == 4,
        size(layout().take(2)) == 6,
        size(layout().take(3)) == 8,
        size(layout().take(4)) == 10,
        size(layout().take(5)) == 12,
        size(layout().take(6)) == 16,
        size(layout().take(7)) == 20,
        size(layout().take(8)) == 24,
        size(layout().take(9)) == 28,
        size(layout().take(10)) == 32,
        size(layout().take(11)) == 36,
        size(layout().take(12)) == 40,
        size(layout().take(13)) == 44,
        size(layout().take(14)) == 48,
        size(layout().take(15)) == 52,
        size(layout().take(16)) == 56,
        size(layout().take(17)) == 60,
        size(layout().take(18)) == 64,
        size(layout().take(19)) == 68,
        size(layout().take(20)) == 72,
{
    reveal_with_fuel(size, 22);
    assert(layout().take(0) =~= Seq::<Kind>::empty());
    assert(layout().take(1) =~= seq![Kind::U32]);
    assert(layout().take(2) =~= seq![Kind::U32, Kind::U16]);
    assert(layout().take(3) =~= seq![Kind::U32, Kind::U16, Kind::U16]);
    assert(layout().take(4) =~= seq![Kind::U32, Kind::U16, Kind::U16, Kind::U16]);
    assert(layout().take(5) =~= seq![Kind::U32, Kind::U16, Kind::U16, Kind::U16, Kind::U16]);
    assert(layout().take(6) =~= seq![Kind::U32, Kind::U16, Kind::U16, Kind::U16, Kind::U16, Kind::U32]);
    assert(layout().take(7) =~= seq![Kind::U32, Kind::U16, Kind::U16, Kind::U16, Kind::U16, Kind::U32, Kind::U32]);
    assert(layout().take(8) =~= seq![Kind::U32, Kind::U16, Kind::U16, Kind::U16, Kind::U16, Kind::U32, Kind::U32, Kind::U32]);
    assert(layout().take(9) =~= seq![Kind::U32, Kind::U16, Kind::U16, Kind::U16, Kind::U16, Kind::U32, Kind::U32, Kind::U32, Kind::U32]);
    assert(layout().take(10) =~= seq![Kind::U32, Kind::U16, Kind::U16, Kind::U16, Kind::U16, Kind::U32, Kind::U32, Kind::U32, Kind::U32, Kind::U32]);
    assert(layout().take(11) =~= seq![Kind::U32, Kind::U16, Kind::U16, Kind::U16, Kind::U16, Kind::U32, Kind::U32, Kind::U32, Kind::U32, Kind::U32, Kind::U32]);
    assert(layout().take(12) =~= seq![Kind::U32, Kind::U16, Kind::U16, Kind::U16, Kind::U16, Kind::U32, Kind::U32, Kind::U32, Kind::U32, Kind::U32, Kind::U32, Kind::U32]);
    assert(layout().take(13) =~= seq![Kind::U32, Kind::U16, Kind::U16, Kind::U16, Kind::U16, Kind::U32, Kind::U32, Kind::U32, Kind::U32, Kind::U32, Kind::U32, Kind::U32, Kind::U32]);
    assert(layout().take(14) =~= seq![Kind::U32, Kind::U16, Kind::U16, Kind::U16, Kind::U16, Kind::U32, Kind::U32, Kind::U32, Kind::U32, Kind::U32, Kind::U32, Kind::U32, Kind::U32, Kind::U32]);
    assert(layout().take(15) =~= seq![Kind::U32, Kind::U16, Kind::U16, Kind::U16, Kind::U16, Kind::U32, Kind::U32, Kind::U32, Kind::U32, Kind::U32, Kind::U32, Kind::U32, Kind::U32, Kind::U32, Kind::U32]);
    assert(layout().take(16) =~= seq![Kind::U32, Kind::U16, Kind::U16, Kind::U16, Kind::U16, Kind::U32, Kind::U32, Kind::U32, Kind::U32, Kind::U32, Kind::U32, Kind::U32, Kind::U32, Kind::U32, Kind::U32, Kind::U32]);
    assert(layout().take(17) =~= seq![Kind::U32, Kind::U16, Kind::U16, Kind::U16, Kind::U16, Kind::U32, Kind::U32, Kind::U32, Kind::U32, Kind::U32, Kind::U32, Kind::U32, Kind::U32, Kind::U32, Kind::U32, Kind::U32, Kind::U32]);
    assert(layout().take(18) =~= seq![Kind::U32, Kind::U16, Kind::U16, Kind::U16, Kind::U16, Kind::U32, Kind::U32, Kind::U32, Kind::U32, Kind::U32, Kind::U32, Kind::U32, Kind::U32, Kind::U32, Kind::U32, Kind::U32, Kind::U32, Kind::U32]);
    assert(layout().take(19) =~= seq![Kind::U32, Kind::U16, Kind::U16, Kind::U16, Kind::U16, Kind::U32, Kind::U32, Kind::U32, Kind::U32, Kind::U32, Kind::U32, Kind::U32, Kind::U32, Kind::U32, Kind::U32, Kind::U32, Kind::U32, Kind::U32, Kind::U32]);
    assert(layout().take(20) =~= seq![Kind::U32, Kind::U16, Kind::U16, Kind::U16, Kind::U16, Kind::U32, Kind::U32, Kind::U32, Kind::U32, Kind::U32, Kind::U32, Kind::U32, Kind::U32, Kind::U32, Kind::U32, Kind::U32, Kind::U32, Kind::U32, Kind::U32, Kind::U32]);
}

/// A node end is stored as its two bits (a node, the input node) and the
/// node index: no bit for none; the first bit and the index of a node of
/// that name for a node; the second bit and index zero for the input node.
pub open spec fn node_stored(
    ad: AnimDefV,
    o: Option<Seq<u8>>,
    node: bool,
    input: bool,
    index: u16,
) -> bool {
    match o {
        None => !node && !input,
        Some(n) => (node && !input && name_at(ad.nodes, index as int) == Some(n)) || (input && !node
            && index == 0 && n == input_node_name()),
    }
}

/// A position end is stored as its two bits (a position, the input
/// position) and the position: no bit for none, the first bit and the
/// position for a position, the second bit for the input position.
pub open spec fn end_pos_stored(o: Option<ConnectorPos>, pos: bool, input: bool, p: Vec3) -> bool {
    match o {
        None => !pos && !input,
        Some(ConnectorPos::Pos(q)) => pos && !input && q == p,
        Some(ConnectorPos::Input) => input && !pos,
    }
}

/// A parameter end read is stored as its two bits (a single value, a
/// range) and the start and end values: no bit for none; the first bit and
/// the value as the start for a single value; the second bit and the range
/// as start and end for a range.
pub open spec fn time_stored(o: Option<ConnectorTime>, scalar: bool, range: bool, start: u32, end: u32) -> bool {
    match o {
        None => !scalar && !range,
        Some(ConnectorTime::Scalar(t)) => scalar && !range && t == start,
        Some(ConnectorTime::Range(r)) => range && !scalar && r.min == start && r.max == end,
    }
}

/// A parameter end written is stored as its two bits, as `time_stored`
/// says, with a single value as both start and end and `default` as both
/// where it has none.
pub open spec fn time_written(
    o: Option<ConnectorTime>,
    scalar: bool,
    range: bool,
    start: u32,
    end: u32,
    default: u32,
) -> bool {
    &&& time_stored(o, scalar, range, start, end)
    &&& match o {
        None => start == default && end == default,
        Some(ConnectorTime::Scalar(t)) => end == t,
        Some(ConnectorTime::Range(_)) => true,
    }
}

/// An event read from a record holds the record's numbers, little-endian,
/// under the flag word at offset 0: its node is the one that the two-byte
/// number at offset 4 refers to; its node ends are stored as `node_stored`
/// says with the indices at offsets 6 and 8; its position ends as
/// `end_pos_stored` says with the positions at offsets 12 and 24; its
/// parameter ends as `time_stored` says with the values at offsets 36 and
/// 40, and 52 and 56; its changes are the numbers at offsets 44 and 60; its
/// run time the number at offset 68; and its greatest length, present
/// exactly where bit `MAX_LENGTH` is set, the number at offset 72.
#[verifier::rlimit(60)]
pub proof fn lemma_read_bytes(ad: AnimDefV, s: Seq<u8>)
    requires
        parse(ad, s) is Some,
    ensures
        ({
            let v = parse(ad, s).unwrap();
            let fl = crate::record::le32_at(s, 0);
            &&& name_at(ad.nodes, crate::record::le16_at(s, 4) as int) == Some(v.name)
            &&& node_stored(ad, v.from_node, bit(fl, FROM_NODE), bit(fl, FROM_INPUT_NODE), crate::record::le16_at(s, 6))
            &&& node_stored(ad, v.to_node, bit(fl, TO_NODE), bit(fl, TO_INPUT_NODE), crate::record::le16_at(s, 8))
            &&& end_pos_stored(v.from_pos, bit(fl, FROM_POS), bit(fl, FROM_INPUT_POS), Vec3 { x: crate::record::le32_at(s, 12), y: crate::record::le32_at(s, 16), z: crate::record::le32_at(s, 20) })
            &&& end_pos_stored(v.to_pos, bit(fl, TO_POS), bit(fl, TO_INPUT_POS), Vec3 { x: crate::record::le32_at(s, 24), y: crate::record::le32_at(s, 28), z: crate::record::le32_at(s, 32) })
            &&& time_stored(v.from_t, bit(fl, FROM_T), bit(fl, FROM_T_RANGE), crate::record::le32_at(s, 36), crate::record::le32_at(s, 40))
            &&& time_stored(v.to_t, bit(fl, TO_T), bit(fl, TO_T_RANGE), crate::record::le32_at(s, 52), crate::record::le32_at(s, 56))
            &&& v.from_t_delta == crate::record::le32_at(s, 44)
            &&& v.to_t_delta == crate::record::le32_at(s, 60)
            &&& v.run_time == crate::record::le32_at(s, 68)
            &&& (v.max_length is Some) == bit(fl, MAX_LENGTH)
            &&& v.max_length matches Some(m) ==> m == crate::record::le32_at(s, 72)
        }),
{
    lemma_offsets();
    crate::record::lemma_numbers_at(layout(), s, 0);
    crate::record::lemma_numbers_at(layout(), s, 1);
    crate::record::lemma_numbers_at(layout(), s, 2);
    crate::record::lemma_numbers_at(layout(), s, 3);
    crate::record::lemma_numbers_at(layout(), s, 4);
    crate::record::lemma_numbers_at(layout(), s, 5);
    crate::record::lemma_numbers_at(layout(), s, 6);
    crate::record::lemma_numbers_at(layout(), s, 7);
    crate::record::lemma_numbers_at(layout(), s, 8);
    crate::record::lemma_numbers_at(layout(), s, 9);
    crate::record::lemma_numbers_at(layout(), s, 10);
    crate::record::lemma_numbers_at(layout(), s, 11);
    crate::record::lemma_numbers_at(layout(), s, 12);
    crate::record::lemma_numbers_at(layout(), s, 13);
    crate::record::lemma_numbers_at(layout(), s, 14);
    crate::record::lemma_numbers_at(layout(), s, 15);
    crate::record::lemma_numbers_at(layout(), s, 16);
    crate::record::lemma_numbers_at(layout(), s, 17);
    crate::record::lemma_numbers_at(layout(), s, 18);
    crate::record::lemma_numbers_at(layout(), s, 19);
    crate::record::lemma_numbers_at(layout(), s, 20);
    reveal(node_end);
    reveal(pos_end);
    reveal(time_end);
    reveal(from_raw);
}

/// The record written for an event holds its numbers as `lemma_read_bytes`
/// reads them, with a single parameter value stored as both start and end,
/// and the default where a parameter end has none.
#[verifier::rlimit(60)]
pub proof fn lemma_written_bytes(ad: AnimDefV, v: ObjectConnector<Seq<u8>>)
    requires
        serialize(ad, v) is Some,
    ensures
        ({
            let b = serialize(ad, v).unwrap();
            let fl = crate::record::le32_at(b, 0);
            &&& name_at(ad.nodes, crate::record::le16_at(b, 4) as int) == Some(v.name)
            &&& node_stored(ad, v.from_node, bit(fl, FROM_NODE), bit(fl, FROM_INPUT_NODE), crate::record::le16_at(b, 6))
            &&& node_stored(ad, v.to_node, bit(fl, TO_NODE), bit(fl, TO_INPUT_NODE), crate::record::le16_at(b, 8))
            &&& end_pos_stored(v.from_pos, bit(fl, FROM_POS), bit(fl, FROM_INPUT_POS), Vec3 { x: crate::record::le32_at(b, 12), y: crate::record::le32_at(b, 16), z: crate::record::le32_at(b, 20) })
            &&& end_pos_stored(v.to_pos, bit(fl, TO_POS), bit(fl, TO_INPUT_POS), Vec3 { x: crate::record::le32_at(b, 24), y: crate::record::le32_at(b, 28), z: crate::record::le32_at(b, 32) })
            &&& time_written(v.from_t, bit(fl, FROM_T), bit(fl, FROM_T_RANGE), crate::record::le32_at(b, 36), crate::record::le32_at(b, 40), float::ZERO)
            &&& time_written(v.to_t, bit(fl, TO_T), bit(fl, TO_T_RANGE), crate::record::le32_at(b, 52), crate::record::le32_at(b, 56), float::ONE)
            &&& v.from_t_delta == crate::record::le32_at(b, 44)
            &&& v.to_t_delta == crate::record::le32_at(b, 60)
            &&& v.run_time == crate::record::le32_at(b, 68)
            &&& (v.max_length is Some) == bit(fl, MAX_LENGTH)
            &&& v.max_length matches Some(m) ==> m == crate::record::le32_at(b, 72)
        }),
{
    reveal(to_raw);
    reveal(node_end_fields);
    let r = to_raw(ad, v).unwrap();
    let g = fields_of(r);
    lemma_raw(r, g);
    let fe = node_end_fields(ad, v.from_node).unwrap();
    let te = node_end_fields(ad, v.to_node).unwrap();
    let fp = pos_end_fields(v.from_pos);
    let tp = pos_end_fields(v.to_pos);
    let ft = time_end_fields(v.from_t, float::ZERO);
    let tt = time_end_fields(v.to_t, float::ONE);
    lemma_word(
        fe.0, fe.1, fp.0, fp.1, te.0, te.1, tp.0, tp.1, ft.0, ft.1, tt.0, tt.1,
        v.max_length is Some,
    );
    crate::anim_def::lemma_name_at_index_of(ad.nodes, v.name);
    if let Some(n) = v.from_node {
        if n != input_node_name() {
            crate::anim_def::lemma_name_at_index_of(ad.nodes, n);
        }
    }
    if let Some(n) = v.to_node {
        if n != input_node_name() {
            crate::anim_def::lemma_name_at_index_of(ad.nodes, n);
        }
    }
    lemma_offsets();
    crate::record::lemma_numbers_written(g, layout(), 0);
    crate::record::lemma_numbers_written(g, layout(), 1);
    crate::record::lemma_numbers_written(g, layout(), 2);
    crate::record::lemma_numbers_written(g, layout(), 3);
    crate::record::lemma_numbers_written(g, layout(), 4);
    crate::record::lemma_numbers_written(g, layout(), 5);
    crate::record::lemma_numbers_written(g, layout(), 6);
    crate::record::lemma_numbers_written(g, layout(), 7);
    crate::record::lemma_numbers_written(g, layout(), 8);
    crate::record::lemma_numbers_written(g, layout(), 9);
    crate::record::lemma_numbers_written(g, layout(), 10);
    crate::record::lemma_numbers_written(g, layout(), 11);
    crate::record::lemma_numbers_written(g, layout(), 12);
    crate::record::lemma_numbers_written(g, layout(), 13);
    crate::record::lemma_numbers_written(g, layout(), 14);
    crate::record::lemma_numbers_written(g, layout(), 15);
    crate::record::lemma_numbers_written(g, layout(), 16);
    crate::record::lemma_numbers_written(g, layout(), 17);
    crate::record::lemma_numbers_written(g, layout(), 18);
    crate::record::lemma_numbers_written(g, layout(), 19);
    crate::record::lemma_numbers_written(g, layout(), 20);
}

} // verus!
