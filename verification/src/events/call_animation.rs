//! `CALL_ANIMATION` (24): starts another animation, optionally on an
//! operand node, at or with a node, and optionally waiting for one of the
//! animation references to complete.
use vstd::prelude::*;
use crate::anim_def::{
    anim_ref_valid, index_of, lemma_name_reread, lemma_node_or_input_reread, name_at,
    node_or_input, node_or_input_index, AnimDef, AnimDefV,
};
use crate::error::Error;
use crate::flags::{bit, bit_exec};
use crate::model::{opt_name, vec3_is_zero, vec3_is_zero_exec, Vec3};
use crate::record::{
    conforms_all, decode, decode_record, encode, encode_record, fields_view, get_bytes, get_u16,
    get_u32, lemma_decode_conforms, lemma_decode_encode, lemma_encode_size, size, w16, w32, wbytes,
    FieldV, Fld, Kind,
};
use crate::text::{lemma_pad_unpad, lemma_unpad_pad, pad, pad_exec, unpad, unpad_exec};

use crate::anim_def::{lemma_index_of_name_at, lemma_node_or_input_exact};
use crate::record::{lemma_conforming_fields, lemma_encode_decode};
use crate::model::{vec3_no_neg_zero};
verus! {

/// Parameters of an animation started at a node.
#[derive(Debug)]
pub struct CallAnimationAtNode<N> {
    pub node: N,
    pub position: Option<Vec3>,
    pub translate: Option<Vec3>,
}

/// Parameters of an animation started with a node.
#[derive(Debug)]
pub struct CallAnimationWithNode<N> {
    pub node: N,
    pub position: Option<Vec3>,
}

/// Where an animation is started.
#[derive(Debug)]
pub enum CallAnimationParameters<N> {
    AtNode(CallAnimationAtNode<N>),
    WithNode(CallAnimationWithNode<N>),
}

/// A `CALL_ANIMATION` event.
#[derive(Debug)]
pub struct CallAnimation<N> {
    pub name: N,
    pub operand_node: Option<N>,
    pub wait_for_completion: Option<i16>,
    pub parameters: Option<CallAnimationParameters<N>>,
}

impl DeepView for CallAnimationParameters<Vec<u8>> {
    type V = CallAnimationParameters<Seq<u8>>;

    open spec fn deep_view(&self) -> CallAnimationParameters<Seq<u8>> {
        match self {
            CallAnimationParameters::AtNode(a) => CallAnimationParameters::AtNode(
                CallAnimationAtNode { node: a.node@, position: a.position, translate: a.translate },
            ),
            CallAnimationParameters::WithNode(w) => CallAnimationParameters::WithNode(
                CallAnimationWithNode { node: w.node@, position: w.position },
            ),
        }
    }
}

impl DeepView for CallAnimation<Vec<u8>> {
    type V = CallAnimation<Seq<u8>>;

    open spec fn deep_view(&self) -> CallAnimation<Seq<u8>> {
        CallAnimation {
            name: self.name@,
            operand_node: opt_name(self.operand_node),
            wait_for_completion: self.wait_for_completion,
            parameters: match &self.parameters {
                Some(p) => Some(p.deep_view()),
                None => None,
            },
        }
    }
}

/// Size of the record.
pub const SIZE: u32 = 68;

/// The node index that stands for the input node (`-200`).
pub const INPUT: u32 = 0xFF38;

/// The stored "no animation reference" (`-1`).
pub const NO_WAIT: u16 = 0xFFFF;

/// Flag bits.
pub const AT_NODE: u32 = 0;

pub const POSITION: u32 = 1;

pub const TRANSLATE: u32 = 2;

pub const WITH_NODE: u32 = 3;

pub const WAIT_FOR_COMPLETION: u32 = 4;

/// The flag word with the given bits set.
pub open spec fn word(b0: bool, b1: bool, b2: bool, b3: bool, b4: bool) -> u32 {
    (if b0 { 1u32 } else { 0u32 }) | (if b1 { 2u32 } else { 0u32 }) | (if b2 { 4u32 } else { 0u32 })
        | (if b3 { 8u32 } else { 0u32 }) | (if b4 { 16u32 } else { 0u32 })
}

/// The bits of a flag word are the ones it was built with, and it has no
/// other.
pub proof fn lemma_word(b0: bool, b1: bool, b2: bool, b3: bool, b4: bool)
    by (bit_vector)
    ensures
        bit(word(b0, b1, b2, b3, b4), 0) == b0,
        bit(word(b0, b1, b2, b3, b4), 1) == b1,
        bit(word(b0, b1, b2, b3, b4), 2) == b2,
        bit(word(b0, b1, b2, b3, b4), 3) == b3,
        bit(word(b0, b1, b2, b3, b4), 4) == b4,
        word(b0, b1, b2, b3, b4) < 32,
{
}

/// Fields: animation name, operand index, flags, animation index, the
/// animation reference to wait for, node index, padding, position,
/// translation.
pub open spec fn layout() -> Seq<Kind> {
    seq![
        Kind::Bytes(32),
        Kind::U16,
        Kind::U16,
        Kind::U16,
        Kind::U16,
        Kind::U16,
        Kind::U16,
        Kind::U32,
        Kind::U32,
        Kind::U32,
        Kind::U32,
        Kind::U32,
        Kind::U32,
    ]
}

fn layout_exec() -> (r: Vec<Kind>)
    ensures
        r@ == layout(),
        size(layout()) == SIZE,
{
    let r = vec![
        Kind::Bytes(32),
        Kind::U16,
        Kind::U16,
        Kind::U16,
        Kind::U16,
        Kind::U16,
        Kind::U16,
        Kind::U32,
        Kind::U32,
        Kind::U32,
        Kind::U32,
        Kind::U32,
        Kind::U32,
    ];
    proof {
        assert(r@ =~= layout());
        reveal_with_fuel(size, 14);
    }
    r
}

/// A vector that is present where its flag is set, and zero otherwise.
pub open spec fn opt_vec(set: bool, v: Vec3) -> Option<Option<Vec3>> {
    if set {
        Some(Some(v))
    } else if vec3_is_zero(v) {
        Some(None)
    } else {
        None
    }
}

/// The operand node: none for index zero.
pub open spec fn operand_of(ad: AnimDefV, raw: u16) -> Option<Option<Seq<u8>>> {
    if raw == 0 {
        Some(None)
    } else {
        match name_at(ad.nodes, raw as int) {
            Some(n) => Some(Some(n)),
            None => None,
        }
    }
}

/// The animation reference to wait for: a valid reference where the flag
/// is set, `-1` otherwise.
pub open spec fn wait_of(ad: AnimDefV, set: bool, raw: u16) -> Option<Option<i16>> {
    if set {
        if raw < 0x8000 && anim_ref_valid(ad, raw as int) {
            Some(Some(raw as i16))
        } else {
            None
        }
    } else if raw == NO_WAIT {
        Some(None)
    } else {
        None
    }
}

/// The parameters of the flags, node index, position and translation: at a
/// node (and not also with one); with a node, without translation; or
/// neither, with node index zero and no position or translation.
pub open spec fn parameters_of(
    ad: AnimDefV,
    fl: u32,
    node: u16,
    position: Option<Vec3>,
    translate: Option<Vec3>,
) -> Option<Option<CallAnimationParameters<Seq<u8>>>> {
    if bit(fl, AT_NODE) {
        if bit(fl, WITH_NODE) {
            None
        } else {
            match node_or_input(ad, node as int, INPUT as int) {
                Some(n) => Some(
                    Some(
                        CallAnimationParameters::AtNode(
                            CallAnimationAtNode { node: n, position, translate },
                        ),
                    ),
                ),
                None => None,
            }
        }
    } else if bit(fl, WITH_NODE) {
        if translate is Some {
            None
        } else {
            match node_or_input(ad, node as int, INPUT as int) {
                Some(n) => Some(
                    Some(CallAnimationParameters::WithNode(CallAnimationWithNode { node: n, position })),
                ),
                None => None,
            }
        }
    } else if node == 0 && position is None && translate is None {
        Some(None)
    } else {
        None
    }
}

/// Whether a record waits for an animation reference. Recoil has no
/// wait flag: there a stored reference that is not negative is waited for.
pub open spec fn waits(rc: bool, fl: u32, raw: u16) -> bool {
    if rc {
        raw < 0x8000
    } else {
        bit(fl, WAIT_FOR_COMPLETION)
    }
}

/// The event that the fields of a record describe, if they describe one:
/// only the five known flags, animation index and padding zero.
pub open spec fn from_fields(ad: AnimDefV, f: Seq<FieldV>, rc: bool) -> Option<
    CallAnimation<Seq<u8>>,
> {
    let fl = w16(f, 2) as u32;
    if fl >= 32 || w16(f, 3) != 0 || w16(f, 6) != 0 {
        None
    } else {
        match (
            unpad(wbytes(f, 0)),
            operand_of(ad, w16(f, 1)),
            opt_vec(bit(fl, POSITION), Vec3 { x: w32(f, 7), y: w32(f, 8), z: w32(f, 9) }),
            opt_vec(bit(fl, TRANSLATE), Vec3 { x: w32(f, 10), y: w32(f, 11), z: w32(f, 12) }),
            wait_of(ad, waits(rc, fl, w16(f, 4)), w16(f, 4)),
        ) {
            (Some(name), Some(operand_node), Some(position), Some(translate), Some(wait)) => match parameters_of(
                ad,
                fl,
                w16(f, 5),
                position,
                translate,
            ) {
                Some(parameters) => Some(
                    CallAnimation { name, operand_node, wait_for_completion: wait, parameters },
                ),
                None => None,
            },
            _ => None,
        }
    }
}

/// The flags (at node, position, translate, with node), node index,
/// position and translation of parameters.
pub open spec fn parameter_fields(ad: AnimDefV, p: Option<CallAnimationParameters<Seq<u8>>>) -> Option<
    (bool, bool, bool, bool, int, Vec3, Vec3),
> {
    let zero = Vec3 { x: 0, y: 0, z: 0 };
    match p {
        None => Some((false, false, false, false, 0, zero, zero)),
        Some(CallAnimationParameters::AtNode(a)) => match node_or_input_index(ad, a.node, INPUT as int) {
            Some(i) => Some(
                (
                    true,
                    a.position is Some,
                    a.translate is Some,
                    false,
                    i,
                    match a.position {
                        Some(v) => v,
                        None => zero,
                    },
                    match a.translate {
                        Some(v) => v,
                        None => zero,
                    },
                ),
            ),
            None => None,
        },
        Some(CallAnimationParameters::WithNode(w)) => match node_or_input_index(ad, w.node, INPUT as int) {
            Some(i) => Some(
                (
                    false,
                    w.position is Some,
                    false,
                    true,
                    i,
                    match w.position {
                        Some(v) => v,
                        None => zero,
                    },
                    zero,
                ),
            ),
            None => None,
        },
    }
}

/// The fields of the record of an event, if it can be written; Recoil
/// never sets the wait flag.
pub open spec fn to_fields(ad: AnimDefV, v: CallAnimation<Seq<u8>>, rc: bool) -> Option<
    Seq<FieldV>,
> {
    let operand: Option<int> = match v.operand_node {
        None => Some(0),
        Some(n) => index_of(ad.nodes, n),
    };
    let wait: Option<u16> = match v.wait_for_completion {
        None => Some(NO_WAIT),
        Some(i) => if anim_ref_valid(ad, i as int) {
            Some(i as u16)
        } else {
            None
        },
    };
    match (pad(v.name, 32), operand, wait, parameter_fields(ad, v.parameters)) {
        (Some(nb), Some(oi), Some(wi), Some(p)) => Some(
            seq![
                FieldV::Bytes(nb),
                FieldV::U16(oi as u16),
                FieldV::U16(word(p.0, p.1, p.2, p.3, !rc && v.wait_for_completion is Some) as u16),
                FieldV::U16(0),
                FieldV::U16(wi),
                FieldV::U16(p.4 as u16),
                FieldV::U16(0),
                FieldV::U32(p.5.x),
                FieldV::U32(p.5.y),
                FieldV::U32(p.5.z),
                FieldV::U32(p.6.x),
                FieldV::U32(p.6.y),
                FieldV::U32(p.6.z),
            ],
        ),
        _ => None,
    }
}

/// The event that a record of Recoil (`rc`) or of the other games holds,
/// if it holds one.
pub open spec fn parse_with(ad: AnimDefV, s: Seq<u8>, rc: bool) -> Option<CallAnimation<Seq<u8>>> {
    if s.len() == SIZE {
        from_fields(ad, decode(layout(), s), rc)
    } else {
        None
    }
}

/// The record of an event in Recoil (`rc`) or in the other games, if it
/// can be written.
pub open spec fn serialize_with(ad: AnimDefV, v: CallAnimation<Seq<u8>>, rc: bool) -> Option<
    Seq<u8>,
> {
    match to_fields(ad, v, rc) {
        Some(f) => Some(encode(f)),
        None => None,
    }
}

/// The event that a record of MechWarrior 3 or Pirate's Moon holds, if it
/// holds one.
pub open spec fn parse(ad: AnimDefV, s: Seq<u8>) -> Option<CallAnimation<Seq<u8>>> {
    parse_with(ad, s, false)
}

/// The MechWarrior 3 or Pirate's Moon record of an event, if it can be
/// written.
pub open spec fn serialize(ad: AnimDefV, v: CallAnimation<Seq<u8>>) -> Option<Seq<u8>> {
    serialize_with(ad, v, false)
}

/// The event that a record of Recoil holds, if it holds one.
pub open spec fn parse_rc(ad: AnimDefV, s: Seq<u8>) -> Option<CallAnimation<Seq<u8>>> {
    parse_with(ad, s, true)
}

/// The Recoil record of an event, if it can be written.
pub open spec fn serialize_rc(ad: AnimDefV, v: CallAnimation<Seq<u8>>) -> Option<Seq<u8>> {
    serialize_with(ad, v, true)
}

fn opt_vec_exec(set: bool, v: Vec3) -> (r: Result<Option<Vec3>, Error>)
    ensures
        match opt_vec(set, v) {
            Some(o) => r == Ok::<Option<Vec3>, Error>(o),
            None => r == Err::<Option<Vec3>, Error>(Error::Invalid),
        },
{
    if set {
        Ok(Some(v))
    } else if vec3_is_zero_exec(v) {
        Ok(None)
    } else {
        Err(Error::Invalid)
    }
}

fn read_with(data: &[u8], ad: &AnimDef, rc: bool) -> (r: Result<CallAnimation<Vec<u8>>, Error>)
    ensures
        match parse_with(ad@, data@, rc) {
            Some(v) => r matches Ok(x) && x.deep_view() == v,
            None => r == Err::<CallAnimation<Vec<u8>>, Error>(Error::Invalid),
        },
{
    if data.len() != 68 {
        return Err(Error::Invalid);
    }
    let l = layout_exec();
    let f = decode_record(data, l.as_slice());
    let ghost fv = fields_view(f@);
    assert forall|i: int| 1 <= i < 13 implies (if i < 7 { fv[i] is U16 } else { fv[i] is U32 }) by {
        assert(crate::record::conforms(fv[i], layout()[i]));
    }
    let fl = get_u16(&f, 2) as u32;
    if fl >= 32 || get_u16(&f, 3) != 0 || get_u16(&f, 6) != 0 {
        return Err(Error::Invalid);
    }
    let name = match unpad_exec(get_bytes(&f, 0)) {
        Some(n) => n,
        None => return Err(Error::Invalid),
    };
    let raw_operand = get_u16(&f, 1);
    let operand_node = if raw_operand == 0 {
        None
    } else {
        Some(ad.node_from_index(raw_operand as u32)?)
    };
    let position = opt_vec_exec(
        bit_exec(fl, POSITION),
        Vec3 { x: get_u32(&f, 7), y: get_u32(&f, 8), z: get_u32(&f, 9) },
    )?;
    let translate = opt_vec_exec(
        bit_exec(fl, TRANSLATE),
        Vec3 { x: get_u32(&f, 10), y: get_u32(&f, 11), z: get_u32(&f, 12) },
    )?;
    let raw_wait = get_u16(&f, 4);
    let waiting = if rc {
        raw_wait < 0x8000
    } else {
        bit_exec(fl, WAIT_FOR_COMPLETION)
    };
    let wait_for_completion = if waiting {
        if raw_wait >= 0x8000 {
            return Err(Error::Invalid);
        }
        let i = ad.anim_ref_validate_index(raw_wait as i16)?;
        Some(i)
    } else if raw_wait == NO_WAIT {
        None
    } else {
        return Err(Error::Invalid);
    };
    let node = get_u16(&f, 5);
    let parameters = if bit_exec(fl, AT_NODE) {
        if bit_exec(fl, WITH_NODE) {
            return Err(Error::Invalid);
        }
        let n = ad.node_or_input_from_index(node as u32, INPUT)?;
        Some(CallAnimationParameters::AtNode(CallAnimationAtNode { node: n, position, translate }))
    } else if bit_exec(fl, WITH_NODE) {
        if translate.is_some() {
            return Err(Error::Invalid);
        }
        let n = ad.node_or_input_from_index(node as u32, INPUT)?;
        Some(CallAnimationParameters::WithNode(CallAnimationWithNode { node: n, position }))
    } else if node == 0 && position.is_none() && translate.is_none() {
        None
    } else {
        return Err(Error::Invalid);
    };
    Ok(CallAnimation { name, operand_node, wait_for_completion, parameters })
}

fn write_with(v: &CallAnimation<Vec<u8>>, ad: &AnimDef, rc: bool, out: &mut Vec<u8>) -> (r:
    Result<(), Error>)
    ensures
        match serialize_with(ad@, v.deep_view(), rc) {
            Some(b) => r is Ok && final(out)@ == old(out)@ + b,
            None => r == Err::<(), Error>(Error::Invalid) && final(out)@ == old(out)@,
        },
{
    let nb = match pad_exec(&v.name, 32) {
        Some(b) => b,
        None => return Err(Error::Invalid),
    };
    let oi: u16 = match &v.operand_node {
        None => 0,
        Some(n) => ad.node_to_index(n)?,
    };
    let wi: u16 = match v.wait_for_completion {
        None => NO_WAIT,
        Some(i) => {
            let j = ad.anim_ref_validate_index(i)?;
            j as u16
        },
    };
    let zero = Vec3 { x: 0, y: 0, z: 0 };
    let (at, has_pos, has_tr, with, ni, pos, tr): (bool, bool, bool, bool, u32, Vec3, Vec3) =
        match &v.parameters {
        None => (false, false, false, false, 0, zero, zero),
        Some(CallAnimationParameters::AtNode(a)) => {
            let i = ad.node_or_input_to_index(&a.node, INPUT)?;
            (
                true,
                a.position.is_some(),
                a.translate.is_some(),
                false,
                i,
                match a.position {
                    Some(p) => p,
                    None => zero,
                },
                match a.translate {
                    Some(t) => t,
                    None => zero,
                },
            )
        },
        Some(CallAnimationParameters::WithNode(w)) => {
            let i = ad.node_or_input_to_index(&w.node, INPUT)?;
            (
                false,
                w.position.is_some(),
                false,
                true,
                i,
                match w.position {
                    Some(p) => p,
                    None => zero,
                },
                zero,
            )
        },
    };
    let wait = !rc && v.wait_for_completion.is_some();
    let fl = (if at { 1u32 } else { 0u32 }) | (if has_pos { 2u32 } else { 0u32 }) | (if has_tr {
        4u32
    } else {
        0u32
    }) | (if with { 8u32 } else { 0u32 }) | (if wait { 16u32 } else { 0u32 });
    proof {
        lemma_word(at, has_pos, has_tr, with, wait);
    }
    let ghost nbv = nb@;
    let fs = vec![
        Fld::Bytes(nb),
        Fld::U16(oi),
        Fld::U16(fl as u16),
        Fld::U16(0),
        Fld::U16(wi),
        Fld::U16(ni as u16),
        Fld::U16(0),
        Fld::U32(pos.x),
        Fld::U32(pos.y),
        Fld::U32(pos.z),
        Fld::U32(tr.x),
        Fld::U32(tr.y),
        Fld::U32(tr.z),
    ];
    proof {
        assert(fields_view(fs@) =~= to_fields(ad@, v.deep_view(), rc).unwrap());
    }
    encode_record(&fs, out);
    Ok(())
}

/// Reads a MechWarrior 3 or Pirate's Moon `CALL_ANIMATION` record.
pub fn read(data: &[u8], ad: &AnimDef) -> (r: Result<CallAnimation<Vec<u8>>, Error>)
    ensures
        match parse(ad@, data@) {
            Some(v) => r matches Ok(x) && x.deep_view() == v,
            None => r == Err::<CallAnimation<Vec<u8>>, Error>(Error::Invalid),
        },
{
    read_with(data, ad, false)
}

/// Reads a Recoil `CALL_ANIMATION` record.
pub fn read_rc(data: &[u8], ad: &AnimDef) -> (r: Result<CallAnimation<Vec<u8>>, Error>)
    ensures
        match parse_rc(ad@, data@) {
            Some(v) => r matches Ok(x) && x.deep_view() == v,
            None => r == Err::<CallAnimation<Vec<u8>>, Error>(Error::Invalid),
        },
{
    read_with(data, ad, true)
}

/// Writes a MechWarrior 3 or Pirate's Moon `CALL_ANIMATION` record.
pub fn write(v: &CallAnimation<Vec<u8>>, ad: &AnimDef, out: &mut Vec<u8>) -> (r: Result<
    (),
    Error,
>)
    ensures
        match serialize(ad@, v.deep_view()) {
            Some(b) => r is Ok && final(out)@ == old(out)@ + b,
            None => r == Err::<(), Error>(Error::Invalid) && final(out)@ == old(out)@,
        },
{
    write_with(v, ad, false, out)
}

/// Writes a Recoil `CALL_ANIMATION` record.
pub fn write_rc(v: &CallAnimation<Vec<u8>>, ad: &AnimDef, out: &mut Vec<u8>) -> (r: Result<
    (),
    Error,
>)
    ensures
        match serialize_rc(ad@, v.deep_view()) {
            Some(b) => r is Ok && final(out)@ == old(out)@ + b,
            None => r == Err::<(), Error>(Error::Invalid) && final(out)@ == old(out)@,
        },
{
    write_with(v, ad, true, out)
}

/// Writing an event that was read, then reading it again, gives the same
/// event, in the records of each game.
#[verifier::spinoff_prover]
#[verifier::rlimit(40)]
pub proof fn lemma_reread_with(ad: AnimDefV, s: Seq<u8>, rc: bool)
    requires
        parse_with(ad, s, rc) is Some,
    ensures
        serialize_with(ad, parse_with(ad, s, rc).unwrap(), rc) matches Some(b) && parse_with(
            ad,
            b,
            rc,
        ) == parse_with(ad, s, rc),
{
    let f = decode(layout(), s);
    reveal_with_fuel(size, 14);
    lemma_decode_conforms(layout(), s);
    assert(crate::record::conforms(f[0], layout()[0]));
    lemma_pad_unpad(wbytes(f, 0));
    if w16(f, 1) != 0 {
        lemma_name_reread(ad.nodes, w16(f, 1) as int);
    }
    let fl = w16(f, 2) as u32;
    if bit(fl, AT_NODE) || bit(fl, WITH_NODE) {
        lemma_node_or_input_reread(ad, w16(f, 5) as int, INPUT as int);
    }
    let v = parse_with(ad, s, rc).unwrap();
    let p = parameter_fields(ad, v.parameters).unwrap();
    lemma_word(p.0, p.1, p.2, p.3, !rc && v.wait_for_completion is Some);
    let g = to_fields(ad, v, rc).unwrap();
    assert(conforms_all(g, layout()));
    lemma_decode_encode(g, layout());
    lemma_encode_size(g, layout());
    lemma_unpad_pad(v.name, 32);
}

/// Writing a MechWarrior 3 or Pirate's Moon event that was read, then
/// reading it again, gives the same event.
pub proof fn lemma_reread(ad: AnimDefV, s: Seq<u8>)
    requires
        parse(ad, s) is Some,
    ensures
        serialize(ad, parse(ad, s).unwrap()) matches Some(b) && parse(ad, b) == parse(ad, s),
{
    lemma_reread_with(ad, s, false);
}

/// Writing a Recoil event that was read, then reading it again, gives the
/// same event.
pub proof fn lemma_reread_rc(ad: AnimDefV, s: Seq<u8>)
    requires
        parse_rc(ad, s) is Some,
    ensures
        serialize_rc(ad, parse_rc(ad, s).unwrap()) matches Some(b) && parse_rc(ad, b) == parse_rc(
            ad,
            s,
        ),
{
    lemma_reread_with(ad, s, true);
}

/// A record that is written has the record's size, in the records of each
/// game.
pub proof fn lemma_written_size_with(ad: AnimDefV, v: CallAnimation<Seq<u8>>, rc: bool)
    requires
        serialize_with(ad, v, rc) is Some,
    ensures
        serialize_with(ad, v, rc).unwrap().len() == SIZE,
{
    let g = to_fields(ad, v, rc).unwrap();
    assert(conforms_all(g, layout()));
    lemma_encode_size(g, layout());
    reveal_with_fuel(size, 14);
}

/// A record that is written has the record's size.
pub proof fn lemma_written_size(ad: AnimDefV, v: CallAnimation<Seq<u8>>)
    requires
        serialize(ad, v) is Some,
    ensures
        serialize(ad, v).unwrap().len() == SIZE,
{
    lemma_written_size_with(ad, v, false);
}

/// A flag word of the five known bits is the word of its bits.
proof fn lemma_word_rebuild(x: u32)
    by (bit_vector)
    requires
        x < 32,
    ensures
        x == word(bit(x, 0), bit(x, 1), bit(x, 2), bit(x, 3), bit(x, 4)),
{
}

/// The record is written back exactly as read: a position or translation that is not set has
/// no `-0.0` (in the records of MechWarrior 3 and Pirate's Moon).
pub open spec fn exact_record(ad: AnimDefV, s: Seq<u8>) -> bool {
    let f = decode(layout(), s);
    let fl = w16(f, 2) as u32;
    &&& !bit(fl, POSITION) ==> vec3_no_neg_zero(Vec3 { x: w32(f, 7), y: w32(f, 8), z: w32(f, 9) })
    &&& !bit(fl, TRANSLATE) ==> vec3_no_neg_zero(
        Vec3 { x: w32(f, 10), y: w32(f, 11), z: w32(f, 12) },
    )
}

/// Writing the event of a record gives the record back, where the nodes of the
/// definition are distinct and none bears the input node's name and the record
/// is written back exactly.
pub proof fn lemma_exact(ad: AnimDefV, s: Seq<u8>)
    requires
        parse(ad, s) is Some,
        crate::anim_def::distinct_nodes(ad),
        exact_record(ad, s),
    ensures
        serialize(ad, parse(ad, s).unwrap()) == Some(s),
{
    let f = decode(layout(), s);
    reveal_with_fuel(size, 14);
    lemma_decode_conforms(layout(), s);
    lemma_encode_decode(layout(), s);
    lemma_conforming_fields(f, layout());
    crate::text::lemma_pad_unpad(wbytes(f, 0));
    lemma_word_rebuild(w16(f, 2) as u32);
    if w16(f, 1) != 0 {
        lemma_index_of_name_at(ad.nodes, w16(f, 1) as int);
    }
    let fl = w16(f, 2) as u32;
    if bit(fl, AT_NODE) || bit(fl, WITH_NODE) {
        lemma_node_or_input_exact(ad, w16(f, 5) as int, INPUT as int);
    }
    assert(to_fields(ad, parse(ad, s).unwrap(), false).unwrap() =~= f);
}

/// A Recoil record is written back exactly as read: as a record of the
/// other games is, and without the flag of waiting, which Recoil's records
/// do not use.
pub open spec fn exact_record_rc(ad: AnimDefV, s: Seq<u8>) -> bool {
    &&& exact_record(ad, s)
    &&& !bit(w16(decode(layout(), s), 2) as u32, WAIT_FOR_COMPLETION)
}

/// Writing the event of a Recoil record gives the record back, where the nodes
/// of the definition are distinct and none bears the input node's name and the
/// record is written back
/// exactly.
pub proof fn lemma_exact_rc(ad: AnimDefV, s: Seq<u8>)
    requires
        parse_rc(ad, s) is Some,
        crate::anim_def::distinct_nodes(ad),
        exact_record_rc(ad, s),
    ensures
        serialize_rc(ad, parse_rc(ad, s).unwrap()) == Some(s),
{
    let f = decode(layout(), s);
    reveal_with_fuel(size, 14);
    lemma_decode_conforms(layout(), s);
    lemma_encode_decode(layout(), s);
    lemma_conforming_fields(f, layout());
    crate::text::lemma_pad_unpad(wbytes(f, 0));
    lemma_word_rebuild(w16(f, 2) as u32);
    if w16(f, 1) != 0 {
        lemma_index_of_name_at(ad.nodes, w16(f, 1) as int);
    }
    let fl = w16(f, 2) as u32;
    if bit(fl, AT_NODE) || bit(fl, WITH_NODE) {
        lemma_node_or_input_exact(ad, w16(f, 5) as int, INPUT as int);
    }
    assert(to_fields(ad, parse_rc(ad, s).unwrap(), true).unwrap() =~= f);
}

/// The offset of each field of the record.
proof fn lemma_offsets()
    ensures
        size(layout().take(0)) == 0,
        size(layout().take(1)) == 32,
        size(layout().take(2)) == 34,
        size(layout().take(3)) == 36,
        size(layout().take(4)) == 38,
        size(layout().take(5)) == 40,
        size(layout().take(6)) == 42,
        size(layout().take(7)) == 44,
        size(layout().take(8)) == 48,
        size(layout().take(9)) == 52,
        size(layout().take(10)) == 56,
        size(layout().take(11)) == 60,
        size(layout().take(12)) == 64,
{
    reveal_with_fuel(size, 14);
    assert(layout().take(0) =~= Seq::<Kind>::empty());
    assert(layout().take(1) =~= seq![Kind::Bytes(32)]);
    assert(layout().take(2) =~= seq![Kind::Bytes(32), Kind::U16]);
    assert(layout().take(3) =~= seq![Kind::Bytes(32), Kind::U16, Kind::U16]);
    assert(layout().take(4) =~= seq![Kind::Bytes(32), Kind::U16, Kind::U16, Kind::U16]);
    assert(layout().take(5) =~= seq![Kind::Bytes(32), Kind::U16, Kind::U16, Kind::U16, Kind::U16]);
    assert(layout().take(6) =~= seq![Kind::Bytes(32), Kind::U16, Kind::U16, Kind::U16, Kind::U16, Kind::U16]);
    assert(layout().take(7) =~= seq![Kind::Bytes(32), Kind::U16, Kind::U16, Kind::U16, Kind::U16, Kind::U16, Kind::U16]);
    assert(layout().take(8) =~= seq![Kind::Bytes(32), Kind::U16, Kind::U16, Kind::U16, Kind::U16, Kind::U16, Kind::U16, Kind::U32]);
    assert(layout().take(9) =~= seq![Kind::Bytes(32), Kind::U16, Kind::U16, Kind::U16, Kind::U16, Kind::U16, Kind::U16, Kind::U32, Kind::U32]);
    assert(layout().take(10) =~= seq![Kind::Bytes(32), Kind::U16, Kind::U16, Kind::U16, Kind::U16, Kind::U16, Kind::U16, Kind::U32, Kind::U32, Kind::U32]);
    assert(layout().take(11) =~= seq![Kind::Bytes(32), Kind::U16, Kind::U16, Kind::U16, Kind::U16, Kind::U16, Kind::U16, Kind::U32, Kind::U32, Kind::U32, Kind::U32]);
    assert(layout().take(12) =~= seq![Kind::Bytes(32), Kind::U16, Kind::U16, Kind::U16, Kind::U16, Kind::U16, Kind::U16, Kind::U32, Kind::U32, Kind::U32, Kind::U32, Kind::U32]);
}

/// An event read from a record of Recoil (`rc`) or of the other games holds
/// the record's bytes and numbers, little-endian: its name is the name in
/// the first 32 bytes; its operand node is none where the two-byte number
/// at offset 32 is zero and otherwise the node it refers to; the animation
/// it waits for is the two-byte number at offset 38 (`NO_WAIT` where it
/// waits for none, and in the other games bit `WAIT_FOR_COMPLETION` of the
/// flag word at offset 34 is set exactly where it waits); and its
/// parameters follow bits `AT_NODE` and `WITH_NODE` of that word, with the
/// node that the two-byte number at offset 40 refers to, and a position and
/// translation present exactly where bits `POSITION` and `TRANSLATE` are
/// set, the numbers at offsets 44 and 56.
pub proof fn lemma_read_bytes(ad: AnimDefV, s: Seq<u8>, rc: bool)
    requires
        parse_with(ad, s, rc) is Some,
    ensures
        ({
            let v = parse_with(ad, s, rc).unwrap();
            let fl = crate::record::le16_at(s, 34) as u32;
            &&& unpad(s.subrange(0, 32)) == Some(v.name)
            &&& (v.operand_node is None) == (crate::record::le16_at(s, 32) == 0)
            &&& v.operand_node matches Some(n) ==> name_at(ad.nodes, crate::record::le16_at(s, 32) as int) == Some(n)
            &&& match v.wait_for_completion {
                Some(i) => crate::record::le16_at(s, 38) == i as u16 && (!rc ==> bit(fl, WAIT_FOR_COMPLETION)),
                None => crate::record::le16_at(s, 38) == NO_WAIT && (!rc ==> !bit(fl, WAIT_FOR_COMPLETION)),
            }
            &&& match v.parameters {
                None => !bit(fl, AT_NODE) && !bit(fl, WITH_NODE),
                Some(CallAnimationParameters::AtNode(a)) => bit(fl, AT_NODE) && !bit(fl, WITH_NODE)
                    && node_or_input(ad, crate::record::le16_at(s, 40) as int, INPUT as int) == Some(a.node) && (a.position is Some) == bit(fl, POSITION) && (a.position matches Some(p) ==> p == Vec3 { x: crate::record::le32_at(s, 44), y: crate::record::le32_at(s, 48), z: crate::record::le32_at(s, 52) }) && (a.translate is Some) == bit(fl, TRANSLATE) && (a.translate matches Some(t) ==> t == Vec3 { x: crate::record::le32_at(s, 56), y: crate::record::le32_at(s, 60), z: crate::record::le32_at(s, 64) }),
                Some(CallAnimationParameters::WithNode(w)) => bit(fl, WITH_NODE) && !bit(fl, AT_NODE)
                    && node_or_input(ad, crate::record::le16_at(s, 40) as int, INPUT as int) == Some(w.node) && (w.position is Some) == bit(fl, POSITION) && (w.position matches Some(p) ==> p == Vec3 { x: crate::record::le32_at(s, 44), y: crate::record::le32_at(s, 48), z: crate::record::le32_at(s, 52) }),
            }
        }),
{
    lemma_offsets();
    crate::record::lemma_decode_field(layout(), s, 0);
    crate::record::lemma_numbers_at(layout(), s, 1);
    crate::record::lemma_numbers_at(layout(), s, 2);
    crate::record::lemma_numbers_at(layout(), s, 3);
    crate::record::lemma_numbers_at(layout(), s, 4);
    crate::record::lemma_numbers_at(layout(), s, 5);
    crate::record::lemma_numbers_at(layout(), s, 6);
    crate::record::lemma_numbers_at(layout(), s, 7);
    crate::record::lemma_numbers_at(layout(), s, 8);
    crate::record::lemma_numbers_at(layout(), s, 9);
    crate::record::lemma_numbers_at(layout(), s, 10);
    crate::record::lemma_numbers_at(layout(), s, 11);
    crate::record::lemma_numbers_at(layout(), s, 12);
}

/// The record of Recoil (`rc`) or of the other games written for an event
/// holds, little-endian: its name in the first 32 bytes; zero at offset 32
/// where it has no operand node, and otherwise a number that refers to it;
/// at offset 38 the animation it waits for (`NO_WAIT` for none; the other
/// games also set bit `WAIT_FOR_COMPLETION` of the flag word at offset 34
/// where it waits); bits `AT_NODE` or `WITH_NODE` of that word for its
/// parameters, with the number of their node at offset 40 and their
/// position and translation at offsets 44 and 56 (zeros where absent).
pub proof fn lemma_written_bytes(ad: AnimDefV, v: CallAnimation<Seq<u8>>, rc: bool)
    requires
        serialize_with(ad, v, rc) is Some,
    ensures
        ({
            let b = serialize_with(ad, v, rc).unwrap();
            let fl = crate::record::le16_at(b, 34) as u32;
            &&& unpad(b.subrange(0, 32)) == Some(v.name)
            &&& match v.operand_node {
                None => crate::record::le16_at(b, 32) == 0,
                Some(n) => name_at(ad.nodes, crate::record::le16_at(b, 32) as int) == Some(n),
            }
            &&& match v.wait_for_completion {
                Some(i) => crate::record::le16_at(b, 38) == i as u16 && (bit(fl, WAIT_FOR_COMPLETION) == !rc),
                None => crate::record::le16_at(b, 38) == NO_WAIT && !bit(fl, WAIT_FOR_COMPLETION),
            }
            &&& match v.parameters {
                None => !bit(fl, AT_NODE) && !bit(fl, WITH_NODE),
                Some(CallAnimationParameters::AtNode(a)) => bit(fl, AT_NODE) && !bit(fl, WITH_NODE)
                    && node_or_input_index(ad, a.node, INPUT as int) == Some(crate::record::le16_at(b, 40) as int) && match a.position { Some(p) => Vec3 { x: crate::record::le32_at(b, 44), y: crate::record::le32_at(b, 48), z: crate::record::le32_at(b, 52) } == p, None => Vec3 { x: crate::record::le32_at(b, 44), y: crate::record::le32_at(b, 48), z: crate::record::le32_at(b, 52) } == Vec3 { x: 0, y: 0, z: 0 } } && match a.translate { Some(t) => Vec3 { x: crate::record::le32_at(b, 56), y: crate::record::le32_at(b, 60), z: crate::record::le32_at(b, 64) } == t, None => Vec3 { x: crate::record::le32_at(b, 56), y: crate::record::le32_at(b, 60), z: crate::record::le32_at(b, 64) } == Vec3 { x: 0, y: 0, z: 0 } },
                Some(CallAnimationParameters::WithNode(w)) => bit(fl, WITH_NODE) && !bit(fl, AT_NODE)
                    && node_or_input_index(ad, w.node, INPUT as int) == Some(crate::record::le16_at(b, 40) as int) && match w.position { Some(p) => Vec3 { x: crate::record::le32_at(b, 44), y: crate::record::le32_at(b, 48), z: crate::record::le32_at(b, 52) } == p, None => Vec3 { x: crate::record::le32_at(b, 44), y: crate::record::le32_at(b, 48), z: crate::record::le32_at(b, 52) } == Vec3 { x: 0, y: 0, z: 0 } },
            }
        }),
{
    let g = to_fields(ad, v, rc).unwrap();
    let p = parameter_fields(ad, v.parameters).unwrap();
    assert(pad(v.name, 32).unwrap().len() == 32);
    assert(conforms_all(g, layout())) by {
        assert forall|k: int| 0 <= k < g.len() implies #[trigger] crate::record::conforms(
            g[k],
            layout()[k],
        ) by {}
    }
    lemma_offsets();
    lemma_word(p.0, p.1, p.2, p.3, !rc && v.wait_for_completion is Some);
    crate::text::lemma_unpad_pad(v.name, 32);
    if let Some(n) = v.operand_node {
        crate::anim_def::lemma_name_at_index_of(ad.nodes, n);
    }
    crate::record::lemma_encode_size(g, layout());
    crate::record::lemma_decode_encode(g, layout());
    crate::record::lemma_decode_field(layout(), encode(g), 0);
    match v.parameters {
        Some(CallAnimationParameters::AtNode(a)) => {
            if a.node != crate::anim_def::input_node_name() {
                crate::anim_def::lemma_name_at_index_of(ad.nodes, a.node);
            }
        },
        Some(CallAnimationParameters::WithNode(w)) => {
            if w.node != crate::anim_def::input_node_name() {
                crate::anim_def::lemma_name_at_index_of(ad.nodes, w.node);
            }
        },
        None => {},
    }
    crate::record::lemma_numbers_written(g, layout(), 1);
    crate::record::lemma_numbers_written(g, layout(), 2);
    crate::record::lemma_numbers_written(g, layout(), 3);
    crate::record::lemma_numbers_written(g, layout(), 4);
    crate::record::lemma_numbers_written(g, layout(), 5);
    crate::record::lemma_numbers_written(g, layout(), 6);
    crate::record::lemma_numbers_written(g, layout(), 7);
    crate::record::lemma_numbers_written(g, layout(), 8);
    crate::record::lemma_numbers_written(g, layout(), 9);
    crate::record::lemma_numbers_written(g, layout(), 10);
    crate::record::lemma_numbers_written(g, layout(), 11);
    crate::record::lemma_numbers_written(g, layout(), 12);
}

} // verus!
