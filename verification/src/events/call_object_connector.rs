//! `CALL_OBJECT_CONNECTOR` (19): starts an animation that connects two
//! nodes or positions, optionally saving it under an animation reference.
use vstd::prelude::*;
use crate::anim_def::{
    anim_ref_valid, index_of, input_node_name, input_node_name_exec, lemma_name_reread, name_at,
    AnimDef, AnimDefV,
};
use crate::error::Error;
use crate::events::object_connector::ConnectorPos;
use crate::flags::{bit, bit_exec};
use crate::model::{vec3_is_zero, vec3_is_zero_exec, Vec3};
use crate::record::{
    conforms_all, decode, decode_record, encode, encode_record, fields_view, get_bytes, get_u16,
    get_u32, lemma_decode_conforms, lemma_decode_encode, lemma_encode_size, size, w16, w32, wbytes,
    FieldV, Fld, Kind,
};
use crate::text::{bytes_eq, lemma_pad_unpad, lemma_unpad_pad, pad, pad_exec, unpad, unpad_exec};

use crate::anim_def::{lemma_index_of_name_at};
use crate::record::{lemma_conforming_fields, lemma_encode_decode};
use crate::model::{vec3_no_neg_zero};
verus! {

/// One end of the connection: a node, and whether its position is meant.
#[derive(Debug)]
pub struct CallObjectConnectorTarget<N> {
    pub name: N,
    pub pos: bool,
}

/// A `CALL_OBJECT_CONNECTOR` event.
#[derive(Debug)]
pub struct CallObjectConnector<N> {
    pub name: N,
    pub save_index: Option<i16>,
    pub from_node: Option<CallObjectConnectorTarget<N>>,
    pub to_node: Option<CallObjectConnectorTarget<N>>,
    pub from_pos: Option<ConnectorPos>,
    pub to_pos: Option<ConnectorPos>,
}

/// A target, as Verus sees it.
pub open spec fn target_view(t: Option<CallObjectConnectorTarget<Vec<u8>>>) -> Option<
    CallObjectConnectorTarget<Seq<u8>>,
> {
    match t {
        Some(x) => Some(CallObjectConnectorTarget { name: x.name@, pos: x.pos }),
        None => None,
    }
}

impl DeepView for CallObjectConnector<Vec<u8>> {
    type V = CallObjectConnector<Seq<u8>>;

    open spec fn deep_view(&self) -> CallObjectConnector<Seq<u8>> {
        CallObjectConnector {
            name: self.name@,
            save_index: self.save_index,
            from_node: target_view(self.from_node),
            to_node: target_view(self.to_node),
            from_pos: self.from_pos,
            to_pos: self.to_pos,
        }
    }
}

/// Size of the record.
pub const SIZE: u32 = 68;

/// The stored "no animation reference" (`-1`).
pub const NO_SAVE: u16 = 0xFFFF;

/// Flag bits.
pub const FROM_NODE: u32 = 0;

pub const FROM_NODE_POS: u32 = 1;

pub const FROM_INPUT_NODE: u32 = 2;

pub const FROM_INPUT_NODE_POS: u32 = 3;

pub const FROM_POS: u32 = 4;

pub const FROM_INPUT_POS: u32 = 5;

pub const TO_NODE: u32 = 6;

pub const TO_NODE_POS: u32 = 7;

pub const TO_INPUT_NODE: u32 = 8;

pub const TO_INPUT_NODE_POS: u32 = 9;

pub const TO_POS: u32 = 10;

pub const TO_INPUT_POS: u32 = 11;

/// The flag word with the given bits set.
pub open spec fn word(b0: bool, b1: bool, b2: bool, b3: bool, b4: bool, b5: bool, b6: bool, b7: bool, b8: bool, b9: bool, b10: bool, b11: bool) -> u32 {
    (if b0 { 1u32 } else { 0u32 }) | (if b1 { 2u32 } else { 0u32 }) | (if b2 { 4u32 } else { 0u32 }) | (if b3 { 8u32 } else { 0u32 }) | (if b4 { 16u32 } else { 0u32 }) | (if b5 { 32u32 } else { 0u32 }) | (if b6 { 64u32 } else { 0u32 }) | (if b7 { 128u32 } else { 0u32 }) | (if b8 { 256u32 } else { 0u32 }) | (if b9 { 512u32 } else { 0u32 }) | (if b10 { 1024u32 } else { 0u32 }) | (if b11 { 2048u32 } else { 0u32 })
}

/// The bits of a flag word are the ones it was built with, and it has no
/// other.
pub proof fn lemma_word(b0: bool, b1: bool, b2: bool, b3: bool, b4: bool, b5: bool, b6: bool, b7: bool, b8: bool, b9: bool, b10: bool, b11: bool)
    by (bit_vector)
    ensures
        bit(word(b0, b1, b2, b3, b4, b5, b6, b7, b8, b9, b10, b11), 0) == b0,
        bit(word(b0, b1, b2, b3, b4, b5, b6, b7, b8, b9, b10, b11), 1) == b1,
        bit(word(b0, b1, b2, b3, b4, b5, b6, b7, b8, b9, b10, b11), 2) == b2,
        bit(word(b0, b1, b2, b3, b4, b5, b6, b7, b8, b9, b10, b11), 3) == b3,
        bit(word(b0, b1, b2, b3, b4, b5, b6, b7, b8, b9, b10, b11), 4) == b4,
        bit(word(b0, b1, b2, b3, b4, b5, b6, b7, b8, b9, b10, b11), 5) == b5,
        bit(word(b0, b1, b2, b3, b4, b5, b6, b7, b8, b9, b10, b11), 6) == b6,
        bit(word(b0, b1, b2, b3, b4, b5, b6, b7, b8, b9, b10, b11), 7) == b7,
        bit(word(b0, b1, b2, b3, b4, b5, b6, b7, b8, b9, b10, b11), 8) == b8,
        bit(word(b0, b1, b2, b3, b4, b5, b6, b7, b8, b9, b10, b11), 9) == b9,
        bit(word(b0, b1, b2, b3, b4, b5, b6, b7, b8, b9, b10, b11), 10) == b10,
        bit(word(b0, b1, b2, b3, b4, b5, b6, b7, b8, b9, b10, b11), 11) == b11,
        word(b0, b1, b2, b3, b4, b5, b6, b7, b8, b9, b10, b11) < 4096,
{
}

fn word_exec(b0: bool, b1: bool, b2: bool, b3: bool, b4: bool, b5: bool, b6: bool, b7: bool, b8: bool, b9: bool, b10: bool, b11: bool) -> (r: u32)
    ensures
        r == word(b0, b1, b2, b3, b4, b5, b6, b7, b8, b9, b10, b11),
{
    (if b0 { 1u32 } else { 0u32 }) | (if b1 { 2u32 } else { 0u32 }) | (if b2 { 4u32 } else { 0u32 }) | (if b3 { 8u32 } else { 0u32 }) | (if b4 { 16u32 } else { 0u32 }) | (if b5 { 32u32 } else { 0u32 }) | (if b6 { 64u32 } else { 0u32 }) | (if b7 { 128u32 } else { 0u32 }) | (if b8 { 256u32 } else { 0u32 }) | (if b9 { 512u32 } else { 0u32 }) | (if b10 { 1024u32 } else { 0u32 }) | (if b11 { 2048u32 } else { 0u32 })
}

/// Fields: flags, animation name, animation index, save index, from index,
/// to index, from position, to position.
pub open spec fn layout() -> Seq<Kind> {
    seq![
        Kind::U32,
        Kind::Bytes(32),
        Kind::U16,
        Kind::U16,
        Kind::U16,
        Kind::U16,
        Kind::U32,
        Kind::U32,
        Kind::U32,
        Kind::U32,
        Kind::U32,
        Kind::U32,
    ]
}

fn layout_exec() -> (r: Vec<Kind>)
    ensures
        r@ == layout(),
        size(layout()) == SIZE,
{
    let r = vec![
        Kind::U32,
        Kind::Bytes(32),
        Kind::U16,
        Kind::U16,
        Kind::U16,
        Kind::U16,
        Kind::U32,
        Kind::U32,
        Kind::U32,
        Kind::U32,
        Kind::U32,
        Kind::U32,
    ];
    proof {
        assert(r@ =~= layout());
        reveal_with_fuel(size, 13);
    }
    r
}

/// One position end: a position (and not also the input position), the
/// input position, or none; without a position, a zero one is stored.
pub open spec fn pos_of(pos: bool, input: bool, p: Vec3) -> Option<Option<ConnectorPos>> {
    if pos {
        if input {
            None
        } else {
            Some(Some(ConnectorPos::Pos(p)))
        }
    } else if !vec3_is_zero(p) {
        None
    } else if input {
        Some(Some(ConnectorPos::Input))
    } else {
        Some(None)
    }
}

/// The bits and position of a position end.
pub open spec fn pos_fields(o: Option<ConnectorPos>) -> (bool, bool, Vec3) {
    match o {
        None => (false, false, Vec3 { x: 0, y: 0, z: 0 }),
        Some(ConnectorPos::Pos(p)) => (true, false, p),
        Some(ConnectorPos::Input) => (false, true, Vec3 { x: 0, y: 0, z: 0 }),
    }
}

/// One node end, from its four bits and the node index: a node; a node's
/// position; the input
/// node; the input node's position; or none. At most one bit is set, and
/// without a node the index is zero.
pub open spec fn target_of(
    ad: AnimDefV,
    node: bool,
    node_pos: bool,
    input: bool,
    input_pos: bool,
    index: u16,
) -> Option<Option<CallObjectConnectorTarget<Seq<u8>>>> {
    if node {
        if node_pos || input || input_pos {
            None
        } else {
            match name_at(ad.nodes, index as int) {
                Some(n) => Some(Some(CallObjectConnectorTarget { name: n, pos: false })),
                None => None,
            }
        }
    } else if node_pos {
        if input || input_pos {
            None
        } else {
            match name_at(ad.nodes, index as int) {
                Some(n) => Some(Some(CallObjectConnectorTarget { name: n, pos: true })),
                None => None,
            }
        }
    } else if index != 0 {
        None
    } else if input {
        if input_pos {
            None
        } else {
            Some(Some(CallObjectConnectorTarget { name: input_node_name(), pos: false }))
        }
    } else if input_pos {
        Some(Some(CallObjectConnectorTarget { name: input_node_name(), pos: true }))
    } else {
        Some(None)
    }
}

/// The four bits and node index of a node end.
pub open spec fn target_fields(ad: AnimDefV, t: Option<CallObjectConnectorTarget<Seq<u8>>>) -> Option<
    (bool, bool, bool, bool, u16),
> {
    match t {
        None => Some((false, false, false, false, 0)),
        Some(x) => if x.name == input_node_name() {
            if x.pos {
                Some((false, false, false, true, 0))
            } else {
                Some((false, false, true, false, 0))
            }
        } else {
            match index_of(ad.nodes, x.name) {
                Some(i) => if x.pos {
                    Some((false, true, false, false, i as u16))
                } else {
                    Some((true, false, false, false, i as u16))
                },
                None => None,
            }
        },
    }
}

/// The animation reference to save under: `-1` for none.
pub open spec fn save_of(ad: AnimDefV, raw: u16) -> Option<Option<i16>> {
    if raw == NO_SAVE {
        Some(None)
    } else if raw < 0x8000 && anim_ref_valid(ad, raw as int) {
        Some(Some(raw as i16))
    } else {
        None
    }
}

/// The vector of fields `i` to `i + 2`.
pub open spec fn vec_at(f: Seq<FieldV>, i: int) -> Vec3 {
    Vec3 { x: w32(f, i), y: w32(f, i + 1), z: w32(f, i + 2) }
}

/// The event that the fields of a record describe, if they describe one:
/// only the twelve known flags and an animation index of zero.
pub open spec fn from_fields(ad: AnimDefV, f: Seq<FieldV>) -> Option<CallObjectConnector<Seq<u8>>> {
    let fl = w32(f, 0);
    if fl >= 4096 || w16(f, 2) != 0 {
        None
    } else {
        match (
            unpad(wbytes(f, 1)),
            save_of(ad, w16(f, 3)),
            pos_of(bit(fl, FROM_POS), bit(fl, FROM_INPUT_POS), vec_at(f, 6)),
            pos_of(bit(fl, TO_POS), bit(fl, TO_INPUT_POS), vec_at(f, 9)),
            target_of(
                ad,
                bit(fl, FROM_NODE),
                bit(fl, FROM_NODE_POS),
                bit(fl, FROM_INPUT_NODE),
                bit(fl, FROM_INPUT_NODE_POS),
                w16(f, 4),
            ),
            target_of(
                ad,
                bit(fl, TO_NODE),
                bit(fl, TO_NODE_POS),
                bit(fl, TO_INPUT_NODE),
                bit(fl, TO_INPUT_NODE_POS),
                w16(f, 5),
            ),
        ) {
            (Some(name), Some(save_index), Some(from_pos), Some(to_pos), Some(from_node), Some(to_node)) => Some(
                CallObjectConnector { name, save_index, from_node, to_node, from_pos, to_pos },
            ),
            _ => None,
        }
    }
}

/// The fields of the record of an event, if it can be written.
pub open spec fn to_fields(ad: AnimDefV, v: CallObjectConnector<Seq<u8>>) -> Option<Seq<FieldV>> {
    let save: Option<u16> = match v.save_index {
        None => Some(NO_SAVE),
        Some(i) => if anim_ref_valid(ad, i as int) {
            Some(i as u16)
        } else {
            None
        },
    };
    let fp = pos_fields(v.from_pos);
    let tp = pos_fields(v.to_pos);
    match (pad(v.name, 32), save, target_fields(ad, v.from_node), target_fields(ad, v.to_node)) {
        (Some(nb), Some(si), Some(ft), Some(tt)) => Some(
            seq![
                FieldV::U32(
                    word(
                        ft.0, ft.1, ft.2, ft.3, fp.0, fp.1, tt.0, tt.1, tt.2, tt.3, tp.0, tp.1,
                    ),
                ),
                FieldV::Bytes(nb),
                FieldV::U16(0),
                FieldV::U16(si),
                FieldV::U16(ft.4),
                FieldV::U16(tt.4),
                FieldV::U32(fp.2.x),
                FieldV::U32(fp.2.y),
                FieldV::U32(fp.2.z),
                FieldV::U32(tp.2.x),
                FieldV::U32(tp.2.y),
                FieldV::U32(tp.2.z),
            ],
        ),
        _ => None,
    }
}

/// The event that a record holds, if it holds one.
pub open spec fn parse(ad: AnimDefV, s: Seq<u8>) -> Option<CallObjectConnector<Seq<u8>>> {
    if s.len() == SIZE {
        from_fields(ad, decode(layout(), s))
    } else {
        None
    }
}

/// The record of an event, if it can be written.
pub open spec fn serialize(ad: AnimDefV, v: CallObjectConnector<Seq<u8>>) -> Option<Seq<u8>> {
    match to_fields(ad, v) {
        Some(f) => Some(encode(f)),
        None => None,
    }
}

fn pos_of_exec(pos: bool, input: bool, p: Vec3) -> (r: Result<Option<ConnectorPos>, Error>)
    ensures
        match pos_of(pos, input, p) {
            Some(o) => r == Ok::<Option<ConnectorPos>, Error>(o),
            None => r == Err::<Option<ConnectorPos>, Error>(Error::Invalid),
        },
{
    if pos {
        if input {
            Err(Error::Invalid)
        } else {
            Ok(Some(ConnectorPos::Pos(p)))
        }
    } else if !vec3_is_zero_exec(p) {
        Err(Error::Invalid)
    } else if input {
        Ok(Some(ConnectorPos::Input))
    } else {
        Ok(None)
    }
}

fn target_of_exec(
    ad: &AnimDef,
    node: bool,
    node_pos: bool,
    input: bool,
    input_pos: bool,
    index: u16,
) -> (r: Result<Option<CallObjectConnectorTarget<Vec<u8>>>, Error>)
    ensures
        match target_of(ad@, node, node_pos, input, input_pos, index) {
            Some(o) => r matches Ok(x) && target_view(x) == o,
            None => r == Err::<Option<CallObjectConnectorTarget<Vec<u8>>>, Error>(Error::Invalid),
        },
{
    if node {
        if node_pos || input || input_pos {
            return Err(Error::Invalid);
        }
        let n = ad.node_from_index(index as u32)?;
        Ok(Some(CallObjectConnectorTarget { name: n, pos: false }))
    } else if node_pos {
        if input || input_pos {
            return Err(Error::Invalid);
        }
        let n = ad.node_from_index(index as u32)?;
        Ok(Some(CallObjectConnectorTarget { name: n, pos: true }))
    } else if index != 0 {
        Err(Error::Invalid)
    } else if input {
        if input_pos {
            return Err(Error::Invalid);
        }
        Ok(Some(CallObjectConnectorTarget { name: input_node_name_exec(), pos: false }))
    } else if input_pos {
        Ok(Some(CallObjectConnectorTarget { name: input_node_name_exec(), pos: true }))
    } else {
        Ok(None)
    }
}

/// Reads a `CALL_OBJECT_CONNECTOR` record.
pub fn read(data: &[u8], ad: &AnimDef) -> (r: Result<CallObjectConnector<Vec<u8>>, Error>)
    ensures
        match parse(ad@, data@) {
            Some(v) => r matches Ok(x) && x.deep_view() == v,
            None => r == Err::<CallObjectConnector<Vec<u8>>, Error>(Error::Invalid),
        },
{
    if data.len() != 68 {
        return Err(Error::Invalid);
    }
    let l = layout_exec();
    let f = decode_record(data, l.as_slice());
    let ghost fv = fields_view(f@);
    assert forall|i: int| 6 <= i < 12 implies fv[i] is U32 by {
        assert(crate::record::conforms(fv[i], layout()[i]));
    }
    let fl = get_u32(&f, 0);
    if fl >= 4096 || get_u16(&f, 2) != 0 {
        return Err(Error::Invalid);
    }
    let name = match unpad_exec(get_bytes(&f, 1)) {
        Some(n) => n,
        None => return Err(Error::Invalid),
    };
    let raw_save = get_u16(&f, 3);
    let save_index = if raw_save == NO_SAVE {
        None
    } else {
        if raw_save >= 0x8000 {
            return Err(Error::Invalid);
        }
        Some(ad.anim_ref_validate_index(raw_save as i16)?)
    };
    let from_pos = pos_of_exec(
        bit_exec(fl, FROM_POS),
        bit_exec(fl, FROM_INPUT_POS),
        Vec3 { x: get_u32(&f, 6), y: get_u32(&f, 7), z: get_u32(&f, 8) },
    )?;
    let to_pos = pos_of_exec(
        bit_exec(fl, TO_POS),
        bit_exec(fl, TO_INPUT_POS),
        Vec3 { x: get_u32(&f, 9), y: get_u32(&f, 10), z: get_u32(&f, 11) },
    )?;
    let from_node = target_of_exec(
        ad,
        bit_exec(fl, FROM_NODE),
        bit_exec(fl, FROM_NODE_POS),
        bit_exec(fl, FROM_INPUT_NODE),
        bit_exec(fl, FROM_INPUT_NODE_POS),
        get_u16(&f, 4),
    )?;
    let to_node = target_of_exec(
        ad,
        bit_exec(fl, TO_NODE),
        bit_exec(fl, TO_NODE_POS),
        bit_exec(fl, TO_INPUT_NODE),
        bit_exec(fl, TO_INPUT_NODE_POS),
        get_u16(&f, 5),
    )?;
    Ok(CallObjectConnector { name, save_index, from_node, to_node, from_pos, to_pos })
}

fn target_fields_exec(ad: &AnimDef, t: &Option<CallObjectConnectorTarget<Vec<u8>>>) -> (r: Result<
    (bool, bool, bool, bool, u16),
    Error,
>)
    ensures
        match target_fields(ad@, target_view(*t)) {
            Some(x) => r == Ok::<(bool, bool, bool, bool, u16), Error>(x),
            None => r == Err::<(bool, bool, bool, bool, u16), Error>(Error::Invalid),
        },
{
    match t {
        None => Ok((false, false, false, false, 0)),
        Some(x) => {
            let input = input_node_name_exec();
            if bytes_eq(&x.name, &input) {
                if x.pos {
                    Ok((false, false, false, true, 0))
                } else {
                    Ok((false, false, true, false, 0))
                }
            } else {
                let i = ad.node_to_index(&x.name)?;
                if x.pos {
                    Ok((false, true, false, false, i))
                } else {
                    Ok((true, false, false, false, i))
                }
            }
        },
    }
}

fn pos_fields_exec(o: Option<ConnectorPos>) -> (r: (bool, bool, Vec3))
    ensures
        r == pos_fields(o),
{
    match o {
        None => (false, false, Vec3 { x: 0, y: 0, z: 0 }),
        Some(ConnectorPos::Pos(p)) => (true, false, p),
        Some(ConnectorPos::Input) => (false, true, Vec3 { x: 0, y: 0, z: 0 }),
    }
}

/// Writes a `CALL_OBJECT_CONNECTOR` record.
pub fn write(v: &CallObjectConnector<Vec<u8>>, ad: &AnimDef, out: &mut Vec<u8>) -> (r: Result<
    (),
    Error,
>)
    ensures
        match serialize(ad@, v.deep_view()) {
            Some(b) => r is Ok && final(out)@ == old(out)@ + b,
            None => r == Err::<(), Error>(Error::Invalid) && final(out)@ == old(out)@,
        },
{
    let nb = match pad_exec(&v.name, 32) {
        Some(b) => b,
        None => return Err(Error::Invalid),
    };
    let si: u16 = match v.save_index {
        None => NO_SAVE,
        Some(i) => {
            let j = ad.anim_ref_validate_index(i)?;
            j as u16
        },
    };
    let ft = target_fields_exec(ad, &v.from_node)?;
    let tt = target_fields_exec(ad, &v.to_node)?;
    let fp = pos_fields_exec(v.from_pos);
    let tp = pos_fields_exec(v.to_pos);
    let fl = word_exec(ft.0, ft.1, ft.2, ft.3, fp.0, fp.1, tt.0, tt.1, tt.2, tt.3, tp.0, tp.1);
    let ghost nbv = nb@;
    let fs = vec![
        Fld::U32(fl),
        Fld::Bytes(nb),
        Fld::U16(0),
        Fld::U16(si),
        Fld::U16(ft.4),
        Fld::U16(tt.4),
        Fld::U32(fp.2.x),
        Fld::U32(fp.2.y),
        Fld::U32(fp.2.z),
        Fld::U32(tp.2.x),
        Fld::U32(tp.2.y),
        Fld::U32(tp.2.z),
    ];
    proof {
        assert(fields_view(fs@) =~= to_fields(ad@, v.deep_view()).unwrap());
    }
    encode_record(&fs, out);
    Ok(())
}

/// A node end that was read, written and read again, is the same node end.
proof fn lemma_target_reread(
    ad: AnimDefV,
    node: bool,
    node_pos: bool,
    input: bool,
    input_pos: bool,
    index: u16,
)
    requires
        target_of(ad, node, node_pos, input, input_pos, index) is Some,
    ensures
        ({
            let t = target_of(ad, node, node_pos, input, input_pos, index).unwrap();
            target_fields(ad, t) matches Some(x) && target_of(ad, x.0, x.1, x.2, x.3, x.4)
                == Some(t)
        }),
{
    if node || node_pos {
        let n = name_at(ad.nodes, index as int).unwrap();
        if n != input_node_name() {
            lemma_name_reread(ad.nodes, index as int);
        }
    }
}

/// Writing an event that was read, then reading it again, gives the same
/// event.
#[verifier::spinoff_prover]
#[verifier::rlimit(60)]
pub proof fn lemma_reread(ad: AnimDefV, s: Seq<u8>)
    requires
        parse(ad, s) is Some,
    ensures
        serialize(ad, parse(ad, s).unwrap()) matches Some(b) && parse(ad, b) == parse(ad, s),
{
    let f = decode(layout(), s);
    reveal_with_fuel(size, 13);
    lemma_decode_conforms(layout(), s);
    assert(crate::record::conforms(f[1], layout()[1]));
    lemma_pad_unpad(wbytes(f, 1));
    let fl = w32(f, 0);
    lemma_target_reread(
        ad,
        bit(fl, FROM_NODE),
        bit(fl, FROM_NODE_POS),
        bit(fl, FROM_INPUT_NODE),
        bit(fl, FROM_INPUT_NODE_POS),
        w16(f, 4),
    );
    lemma_target_reread(
        ad,
        bit(fl, TO_NODE),
        bit(fl, TO_NODE_POS),
        bit(fl, TO_INPUT_NODE),
        bit(fl, TO_INPUT_NODE_POS),
        w16(f, 5),
    );
    let v = parse(ad, s).unwrap();
    let ft = target_fields(ad, v.from_node).unwrap();
    let tt = target_fields(ad, v.to_node).unwrap();
    let fp = pos_fields(v.from_pos);
    let tp = pos_fields(v.to_pos);
    lemma_word(ft.0, ft.1, ft.2, ft.3, fp.0, fp.1, tt.0, tt.1, tt.2, tt.3, tp.0, tp.1);
    let g = to_fields(ad, v).unwrap();
    assert(conforms_all(g, layout()));
    lemma_decode_encode(g, layout());
    lemma_encode_size(g, layout());
    lemma_unpad_pad(v.name, 32);
}

/// A record that is written has the record's size.
pub proof fn lemma_written_size(ad: AnimDefV, v: CallObjectConnector<Seq<u8>>)
    requires
        serialize(ad, v) is Some,
    ensures
        serialize(ad, v).unwrap().len() == SIZE,
{
    let g = to_fields(ad, v).unwrap();
    assert(conforms_all(g, layout()));
    lemma_encode_size(g, layout());
    reveal_with_fuel(size, 13);
}

/// A flag word of the twelve known bits is the word of its bits.
proof fn lemma_word_rebuild(x: u32)
    by (bit_vector)
    requires
        x < 4096,
    ensures
        x == word(
            bit(x, 0),
            bit(x, 1),
            bit(x, 2),
            bit(x, 3),
            bit(x, 4),
            bit(x, 5),
            bit(x, 6),
            bit(x, 7),
            bit(x, 8),
            bit(x, 9),
            bit(x, 10),
            bit(x, 11),
        ),
{
}

/// The record is written back exactly as read: a position that is not set has no `-0.0`.
pub open spec fn exact_record(ad: AnimDefV, s: Seq<u8>) -> bool {
    let f = decode(layout(), s);
    &&& !bit(w32(f, 0), FROM_POS) ==> vec3_no_neg_zero(vec_at(f, 6))
    &&& !bit(w32(f, 0), TO_POS) ==> vec3_no_neg_zero(vec_at(f, 9))
}

/// Writing the event of a record gives the record back, where the nodes of the
/// definition are distinct, none bears the input node's name, and the record
/// is written back exactly.
pub proof fn lemma_exact(ad: AnimDefV, s: Seq<u8>)
    requires
        parse(ad, s) is Some,
        crate::anim_def::distinct_nodes(ad),
        exact_record(ad, s),
    ensures
        serialize(ad, parse(ad, s).unwrap()) == Some(s),
{
    let f = decode(layout(), s);
    reveal_with_fuel(size, 13);
    lemma_decode_conforms(layout(), s);
    lemma_encode_decode(layout(), s);
    lemma_conforming_fields(f, layout());
    crate::text::lemma_pad_unpad(wbytes(f, 1));
    lemma_word_rebuild(w32(f, 0));
    let fl = w32(f, 0);
    if bit(fl, FROM_NODE) || bit(fl, FROM_NODE_POS) {
        lemma_index_of_name_at(ad.nodes, w16(f, 4) as int);
        assert(ad.nodes.unwrap().contains(ad.nodes.unwrap()[w16(f, 4) - 1]));
    }
    if bit(fl, TO_NODE) || bit(fl, TO_NODE_POS) {
        lemma_index_of_name_at(ad.nodes, w16(f, 5) as int);
        assert(ad.nodes.unwrap().contains(ad.nodes.unwrap()[w16(f, 5) - 1]));
    }
    assert(to_fields(ad, parse(ad, s).unwrap()).unwrap() =~= f);
}

/// The offset of each field of the record.
proof fn lemma_offsets()
    ensures
        size(layout().take(0)) == 0,
        size(layout().take(1)) == 4,
        size(layout().take(2)) == 36,
        size(layout().take(3)) == 38,
        size(layout().take(4)) == 40,
        size(layout().take(5)) == 42,
        size(layout().take(6)) == 44,
        size(layout().take(7)) == 48,
        size(layout().take(8)) == 52,
        size(layout().take(9)) == 56,
        size(layout().take(10)) == 60,
        size(layout().take(11)) == 64,
{
    reveal_with_fuel(size, 13);
    assert(layout().take(0) =~= Seq::<Kind>::empty());
    assert(layout().take(1) =~= seq![Kind::U32]);
    assert(layout().take(2) =~= seq![Kind::U32, Kind::Bytes(32)]);
    assert(layout().take(3) =~= seq![Kind::U32, Kind::Bytes(32), Kind::U16]);
    assert(layout().take(4) =~= seq![Kind::U32, Kind::Bytes(32), Kind::U16, Kind::U16]);
    assert(layout().take(5) =~= seq![Kind::U32, Kind::Bytes(32), Kind::U16, Kind::U16, Kind::U16]);
    assert(layout().take(6) =~= seq![Kind::U32, Kind::Bytes(32), Kind::U16, Kind::U16, Kind::U16, Kind::U16]);
    assert(layout().take(7) =~= seq![Kind::U32, Kind::Bytes(32), Kind::U16, Kind::U16, Kind::U16, Kind::U16, Kind::U32]);
    assert(layout().take(8) =~= seq![Kind::U32, Kind::Bytes(32), Kind::U16, Kind::U16, Kind::U16, Kind::U16, Kind::U32, Kind::U32]);
    assert(layout().take(9) =~= seq![Kind::U32, Kind::Bytes(32), Kind::U16, Kind::U16, Kind::U16, Kind::U16, Kind::U32, Kind::U32, Kind::U32]);
    assert(layout().take(10) =~= seq![Kind::U32, Kind::Bytes(32), Kind::U16, Kind::U16, Kind::U16, Kind::U16, Kind::U32, Kind::U32, Kind::U32, Kind::U32]);
    assert(layout().take(11) =~= seq![Kind::U32, Kind::Bytes(32), Kind::U16, Kind::U16, Kind::U16, Kind::U16, Kind::U32, Kind::U32, Kind::U32, Kind::U32, Kind::U32]);
}

/// A node end is stored as the four bits from `base` of the flag word `fl`
/// (node, node's position, input node, input node's position) and the node
/// index `index`: no bit for none; for a node (or its position) bit `base`
/// (or `base + 1`) and the index of a node of that name; for the input node
/// (or its position) bit `base + 2` (or `base + 3`) and index zero. No other
/// of the four bits is set.
pub open spec fn target_stored(
    ad: AnimDefV,
    t: Option<CallObjectConnectorTarget<Seq<u8>>>,
    fl: u32,
    base: u32,
    index: u16,
) -> bool {
    let b0 = bit(fl, base);
    let b1 = bit(fl, (base + 1) as u32);
    let b2 = bit(fl, (base + 2) as u32);
    let b3 = bit(fl, (base + 3) as u32);
    match t {
        None => !b0 && !b1 && !b2 && !b3,
        Some(x) => if x.name == input_node_name() && index == 0 && (b2 || b3) {
            !b0 && !b1 && (b3 == x.pos) && (b2 == !x.pos)
        } else {
            !b2 && !b3 && (b1 == x.pos) && (b0 == !x.pos) && name_at(ad.nodes, index as int) == Some(
                x.name,
            )
        },
    }
}

/// A position end is stored as the two bits from `base` of the flag word
/// `fl` (a position, the input position) and the position `p`: no bit for
/// none, the first bit and the position for a position, the second bit for
/// the input position.
pub open spec fn pos_stored(o: Option<ConnectorPos>, fl: u32, base: u32, p: Vec3) -> bool {
    let b0 = bit(fl, base);
    let b1 = bit(fl, (base + 1) as u32);
    match o {
        None => !b0 && !b1,
        Some(ConnectorPos::Pos(q)) => b0 && !b1 && q == p,
        Some(ConnectorPos::Input) => !b0 && b1,
    }
}

/// An event read from a record holds the record's bytes and numbers,
/// little-endian: its name is the name in bytes 4 to 36, the animation
/// index at offset 36 is zero, it saves under the two-byte number at
/// offset 38 (`NO_SAVE` for none), and its ends are stored as
/// `target_stored` and `pos_stored` say, with the flag word at offset 0,
/// the node indices at offsets 40 and 42 and the positions at offsets 44
/// and 56.
#[verifier::rlimit(40)]
pub proof fn lemma_read_bytes(ad: AnimDefV, s: Seq<u8>)
    requires
        parse(ad, s) is Some,
    ensures
        ({
            let v = parse(ad, s).unwrap();
            let fl = crate::record::le32_at(s, 0);
            &&& unpad(s.subrange(4, 36)) == Some(v.name)
            &&& crate::record::le16_at(s, 36) == 0
            &&& match v.save_index {
                None => crate::record::le16_at(s, 38) == NO_SAVE,
                Some(i) => crate::record::le16_at(s, 38) == i as u16,
            }
            &&& target_stored(ad, v.from_node, fl, 0, crate::record::le16_at(s, 40))
            &&& target_stored(ad, v.to_node, fl, 6, crate::record::le16_at(s, 42))
            &&& pos_stored(v.from_pos, fl, 4, Vec3 { x: crate::record::le32_at(s, 44), y: crate::record::le32_at(s, 48), z: crate::record::le32_at(s, 52) })
            &&& pos_stored(v.to_pos, fl, 10, Vec3 { x: crate::record::le32_at(s, 56), y: crate::record::le32_at(s, 60), z: crate::record::le32_at(s, 64) })
        }),
{
    lemma_offsets();
    crate::record::lemma_decode_field(layout(), s, 1);
    crate::record::lemma_numbers_at(layout(), s, 0);
    crate::record::lemma_numbers_at(layout(), s, 2);
    crate::record::lemma_numbers_at(layout(), s, 3);
    crate::record::lemma_numbers_at(layout(), s, 4);
    crate::record::lemma_numbers_at(layout(), s, 5);
    crate::record::lemma_numbers_at(layout(), s, 6);
    crate::record::lemma_numbers_at(layout(), s, 7);
    crate::record::lemma_numbers_at(layout(), s, 8);
    crate::record::lemma_numbers_at(layout(), s, 9);
    crate::record::lemma_numbers_at(layout(), s, 10);
    crate::record::lemma_numbers_at(layout(), s, 11);
    reveal(crate::anim_def::input_node_name);
}

/// The record written for an event holds its bytes and numbers as
/// `lemma_read_bytes` reads them.
#[verifier::rlimit(40)]
pub proof fn lemma_written_bytes(ad: AnimDefV, v: CallObjectConnector<Seq<u8>>)
    requires
        serialize(ad, v) is Some,
    ensures
        ({
            let b = serialize(ad, v).unwrap();
            let fl = crate::record::le32_at(b, 0);
            &&& unpad(b.subrange(4, 36)) == Some(v.name)
            &&& crate::record::le16_at(b, 36) == 0
            &&& match v.save_index {
                None => crate::record::le16_at(b, 38) == NO_SAVE,
                Some(i) => crate::record::le16_at(b, 38) == i as u16,
            }
            &&& target_stored(ad, v.from_node, fl, 0, crate::record::le16_at(b, 40))
            &&& target_stored(ad, v.to_node, fl, 6, crate::record::le16_at(b, 42))
            &&& pos_stored(v.from_pos, fl, 4, Vec3 { x: crate::record::le32_at(b, 44), y: crate::record::le32_at(b, 48), z: crate::record::le32_at(b, 52) })
            &&& pos_stored(v.to_pos, fl, 10, Vec3 { x: crate::record::le32_at(b, 56), y: crate::record::le32_at(b, 60), z: crate::record::le32_at(b, 64) })
        }),
{
    let g = to_fields(ad, v).unwrap();
    let ft = target_fields(ad, v.from_node).unwrap();
    let tt = target_fields(ad, v.to_node).unwrap();
    let fp = pos_fields(v.from_pos);
    let tp = pos_fields(v.to_pos);
    assert(pad(v.name, 32).unwrap().len() == 32);
    assert(conforms_all(g, layout())) by {
        assert forall|k: int| 0 <= k < g.len() implies #[trigger] crate::record::conforms(
            g[k],
            layout()[k],
        ) by {}
    }
    lemma_offsets();
    lemma_word(ft.0, ft.1, ft.2, ft.3, fp.0, fp.1, tt.0, tt.1, tt.2, tt.3, tp.0, tp.1);
    crate::text::lemma_unpad_pad(v.name, 32);
    if let Some(x) = v.from_node {
        if x.name != input_node_name() {
            crate::anim_def::lemma_name_at_index_of(ad.nodes, x.name);
        }
    }
    if let Some(x) = v.to_node {
        if x.name != input_node_name() {
            crate::anim_def::lemma_name_at_index_of(ad.nodes, x.name);
        }
    }
    crate::record::lemma_encode_size(g, layout());
    crate::record::lemma_decode_encode(g, layout());
    crate::record::lemma_decode_field(layout(), encode(g), 1);
    crate::record::lemma_numbers_written(g, layout(), 0);
    crate::record::lemma_numbers_written(g, layout(), 2);
    crate::record::lemma_numbers_written(g, layout(), 3);
    crate::record::lemma_numbers_written(g, layout(), 4);
    crate::record::lemma_numbers_written(g, layout(), 5);
    crate::record::lemma_numbers_written(g, layout(), 6);
    crate::record::lemma_numbers_written(g, layout(), 7);
    crate::record::lemma_numbers_written(g, layout(), 8);
    crate::record::lemma_numbers_written(g, layout(), 9);
    crate::record::lemma_numbers_written(g, layout(), 10);
    crate::record::lemma_numbers_written(g, layout(), 11);
}

} // verus!
