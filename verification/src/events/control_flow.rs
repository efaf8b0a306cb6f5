//! The control flow of a sequence: `IF` (31), `ELSE` (32), `ELSEIF` (33)
//! and `ENDIF` (34).
//!
//! `IF` and `ELSEIF` hold a condition: a type, a node index that only the
//! node-undercover condition uses, and four bytes of value whose meaning
//! depends on the type. `ELSE` and `ENDIF` hold nothing.
use vstd::prelude::*;
use crate::error::Error;
use crate::record::{
    conforms_all, decode, decode_record, encode, encode_record, fields_view, get_u32,
    lemma_decode_encode, lemma_encode_size, size, w32, FieldV, Fld, Kind,
};

verus! {

/// The node-undercover condition: a node and a distance.
#[derive(Clone, Copy, Debug, PartialEq, Eq, Structural)]
pub struct NodeUndercover {
    pub node_index: u32,
    pub distance: u32,
}

/// A condition.
#[derive(Clone, Copy, Debug, PartialEq, Eq, Structural)]
pub enum Condition {
    /// An `f32` weight.
    RandomWeight(u32),
    /// An `f32` range.
    PlayerRange(u32),
    AnimationLod(u32),
    NodeUndercover(NodeUndercover),
    HwRender(bool),
    PlayerFirstPerson(bool),
}

/// An `IF` event.
#[derive(Clone, Copy, Debug)]
pub struct If {
    pub condition: Condition,
}

/// An `ELSEIF` event.
#[derive(Clone, Copy, Debug)]
pub struct Elseif {
    pub condition: Condition,
}

/// An `ELSE` event.
#[derive(Clone, Copy, Debug)]
pub struct Else {}

/// An `ENDIF` event.
#[derive(Clone, Copy, Debug)]
pub struct Endif {}

impl DeepView for If {
    type V = If;

    open spec fn deep_view(&self) -> If {
        *self
    }
}

impl DeepView for Elseif {
    type V = Elseif;

    open spec fn deep_view(&self) -> Elseif {
        *self
    }
}

impl DeepView for Else {
    type V = Else;

    open spec fn deep_view(&self) -> Else {
        *self
    }
}

impl DeepView for Endif {
    type V = Endif;

    open spec fn deep_view(&self) -> Endif {
        *self
    }
}

/// Size of a condition record.
pub const SIZE: u32 = 12;

/// Size of the records of `ELSE` and `ENDIF`.
pub const EMPTY_SIZE: u32 = 0;

/// Condition type: random weight.
pub const RANDOM_WEIGHT: u32 = 1;

/// Condition type: player range.
pub const PLAYER_RANGE: u32 = 2;

/// Condition type: animation level of detail.
pub const ANIMATION_LOD: u32 = 4;

/// Condition type: node undercover.
pub const NODE_UNDERCOVER: u32 = 16;

/// Condition type: hardware rendering.
pub const HW_RENDER: u32 = 32;

/// Condition type: player in first person.
pub const PLAYER_FIRST_PERSON: u32 = 64;

/// Fields: condition type, node index, value.
pub open spec fn layout() -> Seq<Kind> {
    seq![Kind::U32, Kind::U32, Kind::U32]
}

fn layout_exec() -> (r: Vec<Kind>)
    ensures
        r@ == layout(),
        size(layout()) == SIZE,
{
    let r = vec![Kind::U32, Kind::U32, Kind::U32];
    proof {
        assert(r@ =~= layout());
        reveal_with_fuel(size, 4);
    }
    r
}

/// The condition of a type, node index and value, if they make one: a
/// known type; no node but for node-undercover; a boolean value `0` or `1`
/// for the two boolean conditions.
pub open spec fn cond_of(ty: u32, node: u32, value: u32) -> Option<Condition> {
    if ty == NODE_UNDERCOVER {
        Some(Condition::NodeUndercover(NodeUndercover { node_index: node, distance: value }))
    } else if node != 0 {
        None
    } else if ty == RANDOM_WEIGHT {
        Some(Condition::RandomWeight(value))
    } else if ty == PLAYER_RANGE {
        Some(Condition::PlayerRange(value))
    } else if ty == ANIMATION_LOD {
        Some(Condition::AnimationLod(value))
    } else if ty == HW_RENDER && value <= 1 {
        Some(Condition::HwRender(value == 1))
    } else if ty == PLAYER_FIRST_PERSON && value <= 1 {
        Some(Condition::PlayerFirstPerson(value == 1))
    } else {
        None
    }
}

/// The type, node index and value of a condition.
pub open spec fn cond_fields(c: Condition) -> (u32, u32, u32) {
    match c {
        Condition::RandomWeight(v) => (RANDOM_WEIGHT, 0, v),
        Condition::PlayerRange(v) => (PLAYER_RANGE, 0, v),
        Condition::AnimationLod(v) => (ANIMATION_LOD, 0, v),
        Condition::NodeUndercover(n) => (NODE_UNDERCOVER, n.node_index, n.distance),
        Condition::HwRender(b) => (HW_RENDER, 0, if b { 1 } else { 0 }),
        Condition::PlayerFirstPerson(b) => (PLAYER_FIRST_PERSON, 0, if b { 1 } else { 0 }),
    }
}

/// The condition that a record holds, if it holds one.
pub open spec fn parse_cond(s: Seq<u8>) -> Option<Condition> {
    if s.len() == SIZE {
        let f = decode(layout(), s);
        cond_of(w32(f, 0), w32(f, 1), w32(f, 2))
    } else {
        None
    }
}

/// The record of a condition.
pub open spec fn serialize_cond(c: Condition) -> Seq<u8> {
    let t = cond_fields(c);
    encode(seq![FieldV::U32(t.0), FieldV::U32(t.1), FieldV::U32(t.2)])
}

/// Reads a condition record.
pub fn read_cond(data: &[u8]) -> (r: Result<Condition, Error>)
    ensures
        match parse_cond(data@) {
            Some(c) => r == Ok::<Condition, Error>(c),
            None => r == Err::<Condition, Error>(Error::Invalid),
        },
{
    if data.len() != 12 {
        return Err(Error::Invalid);
    }
    let l = layout_exec();
    let f = decode_record(data, l.as_slice());
    let ty = get_u32(&f, 0);
    let node = get_u32(&f, 1);
    let value = get_u32(&f, 2);
    if ty == NODE_UNDERCOVER {
        Ok(Condition::NodeUndercover(NodeUndercover { node_index: node, distance: value }))
    } else if node != 0 {
        Err(Error::Invalid)
    } else if ty == RANDOM_WEIGHT {
        Ok(Condition::RandomWeight(value))
    } else if ty == PLAYER_RANGE {
        Ok(Condition::PlayerRange(value))
    } else if ty == ANIMATION_LOD {
        Ok(Condition::AnimationLod(value))
    } else if ty == HW_RENDER && value <= 1 {
        Ok(Condition::HwRender(value == 1))
    } else if ty == PLAYER_FIRST_PERSON && value <= 1 {
        Ok(Condition::PlayerFirstPerson(value == 1))
    } else {
        Err(Error::Invalid)
    }
}

/// Writes a condition record.
pub fn write_cond(c: &Condition, out: &mut Vec<u8>)
    ensures
        final(out)@ == old(out)@ + serialize_cond(*c),
{
    let (ty, node, value): (u32, u32, u32) = match c {
        Condition::RandomWeight(v) => (RANDOM_WEIGHT, 0, *v),
        Condition::PlayerRange(v) => (PLAYER_RANGE, 0, *v),
        Condition::AnimationLod(v) => (ANIMATION_LOD, 0, *v),
        Condition::NodeUndercover(n) => (NODE_UNDERCOVER, n.node_index, n.distance),
        Condition::HwRender(b) => (HW_RENDER, 0, if *b { 1 } else { 0 }),
        Condition::PlayerFirstPerson(b) => (PLAYER_FIRST_PERSON, 0, if *b { 1 } else { 0 }),
    };
    let fs = vec![Fld::U32(ty), Fld::U32(node), Fld::U32(value)];
    proof {
        assert(fields_view(fs@) =~= seq![FieldV::U32(ty), FieldV::U32(node), FieldV::U32(value)]);
    }
    encode_record(&fs, out);
}

/// A written condition reads back as itself.
pub proof fn lemma_cond_roundtrip(c: Condition)
    ensures
        parse_cond(serialize_cond(c)) == Some(c),
        serialize_cond(c).len() == SIZE,
{
    let t = cond_fields(c);
    let g = seq![FieldV::U32(t.0), FieldV::U32(t.1), FieldV::U32(t.2)];
    assert(conforms_all(g, layout()));
    lemma_decode_encode(g, layout());
    lemma_encode_size(g, layout());
    reveal_with_fuel(size, 4);
}

/// The `IF` that a record holds, if it holds one.
pub open spec fn parse_if(s: Seq<u8>) -> Option<If> {
    match parse_cond(s) {
        Some(c) => Some(If { condition: c }),
        None => None,
    }
}

/// The record of an `IF`.
pub open spec fn serialize_if(v: If) -> Option<Seq<u8>> {
    Some(serialize_cond(v.condition))
}

/// Reads an `IF` record.
pub fn read_if(data: &[u8]) -> (r: Result<If, Error>)
    ensures
        match parse_if(data@) {
            Some(v) => r matches Ok(x) && x == v,
            None => r is Err && r == Err::<If, Error>(Error::Invalid),
        },
{
    let c = read_cond(data)?;
    Ok(If { condition: c })
}

/// Writes an `IF` record.
pub fn write_if(v: &If, out: &mut Vec<u8>) -> (r: Result<(), Error>)
    ensures
        r is Ok,
        final(out)@ == old(out)@ + serialize_if(*v).unwrap(),
{
    write_cond(&v.condition, out);
    Ok(())
}

/// Writing an `IF` that was read, then reading it again, gives the same
/// `IF`.
pub proof fn lemma_reread_if(s: Seq<u8>)
    requires
        parse_if(s) is Some,
    ensures
        serialize_if(parse_if(s).unwrap()) matches Some(b) && b.len() == SIZE && parse_if(b)
            == parse_if(s),
{
    lemma_cond_roundtrip(parse_if(s).unwrap().condition);
}

/// The `ELSEIF` that a record holds, if it holds one.
pub open spec fn parse_elseif(s: Seq<u8>) -> Option<Elseif> {
    match parse_cond(s) {
        Some(c) => Some(Elseif { condition: c }),
        None => None,
    }
}

/// The record of an `ELSEIF`.
pub open spec fn serialize_elseif(v: Elseif) -> Option<Seq<u8>> {
    Some(serialize_cond(v.condition))
}

/// Reads an `ELSEIF` record.
pub fn read_elseif(data: &[u8]) -> (r: Result<Elseif, Error>)
    ensures
        match parse_elseif(data@) {
            Some(v) => r matches Ok(x) && x == v,
            None => r == Err::<Elseif, Error>(Error::Invalid),
        },
{
    let c = read_cond(data)?;
    Ok(Elseif { condition: c })
}

/// Writes an `ELSEIF` record.
pub fn write_elseif(v: &Elseif, out: &mut Vec<u8>) -> (r: Result<(), Error>)
    ensures
        r is Ok,
        final(out)@ == old(out)@ + serialize_elseif(*v).unwrap(),
{
    write_cond(&v.condition, out);
    Ok(())
}

/// Writing an `ELSEIF` that was read, then reading it again, gives the same
/// `ELSEIF`.
pub proof fn lemma_reread_elseif(s: Seq<u8>)
    requires
        parse_elseif(s) is Some,
    ensures
        serialize_elseif(parse_elseif(s).unwrap()) matches Some(b) && b.len() == SIZE
            && parse_elseif(b) == parse_elseif(s),
{
    lemma_cond_roundtrip(parse_elseif(s).unwrap().condition);
}

/// The `ELSE` that a record holds: only an empty one does.
pub open spec fn parse_else(s: Seq<u8>) -> Option<Else> {
    if s.len() == 0 {
        Some(Else {  })
    } else {
        None
    }
}

/// The record of an `ELSE`: empty.
pub open spec fn serialize_else(v: Else) -> Option<Seq<u8>> {
    Some(Seq::empty())
}

/// Reads an `ELSE` record.
pub fn read_else(data: &[u8]) -> (r: Result<Else, Error>)
    ensures
        match parse_else(data@) {
            Some(v) => r matches Ok(x) && x == v,
            None => r == Err::<Else, Error>(Error::Invalid),
        },
{
    if data.len() != 0 {
        return Err(Error::Invalid);
    }
    Ok(Else {  })
}

/// Writes an `ELSE` record: nothing.
pub fn write_else(v: &Else, out: &mut Vec<u8>) -> (r: Result<(), Error>)
    ensures
        r is Ok,
        final(out)@ == old(out)@ + serialize_else(*v).unwrap(),
{
    proof {
        assert(old(out)@ + Seq::<u8>::empty() =~= old(out)@);
    }
    Ok(())
}

/// An `ELSE` reads back as itself.
pub proof fn lemma_reread_else(s: Seq<u8>)
    requires
        parse_else(s) is Some,
    ensures
        serialize_else(parse_else(s).unwrap()) matches Some(b) && b.len() == EMPTY_SIZE
            && parse_else(b) == parse_else(s),
{
}

/// The `ENDIF` that a record holds: only an empty one does.
pub open spec fn parse_endif(s: Seq<u8>) -> Option<Endif> {
    if s.len() == 0 {
        Some(Endif {  })
    } else {
        None
    }
}

/// The record of an `ENDIF`: empty.
pub open spec fn serialize_endif(v: Endif) -> Option<Seq<u8>> {
    Some(Seq::empty())
}

/// Reads an `ENDIF` record.
pub fn read_endif(data: &[u8]) -> (r: Result<Endif, Error>)
    ensures
        match parse_endif(data@) {
            Some(v) => r matches Ok(x) && x == v,
            None => r == Err::<Endif, Error>(Error::Invalid),
        },
{
    if data.len() != 0 {
        return Err(Error::Invalid);
    }
    Ok(Endif {  })
}

/// Writes an `ENDIF` record: nothing.
pub fn write_endif(v: &Endif, out: &mut Vec<u8>) -> (r: Result<(), Error>)
    ensures
        r is Ok,
        final(out)@ == old(out)@ + serialize_endif(*v).unwrap(),
{
    proof {
        assert(old(out)@ + Seq::<u8>::empty() =~= old(out)@);
    }
    Ok(())
}

/// An `ENDIF` reads back as itself.
pub proof fn lemma_reread_endif(s: Seq<u8>)
    requires
        parse_endif(s) is Some,
    ensures
        serialize_endif(parse_endif(s).unwrap()) matches Some(b) && b.len() == EMPTY_SIZE
            && parse_endif(b) == parse_endif(s),
{
}

/// Size of a condition record of Pirate's Moon: the condition and a word
/// that is zero.
pub const PM_SIZE: u32 = 16;

/// Fields of a Pirate's Moon condition: type, node index, value, zero.
pub open spec fn layout_pm() -> Seq<Kind> {
    seq![Kind::U32, Kind::U32, Kind::U32, Kind::U32]
}

fn layout_pm_exec() -> (r: Vec<Kind>)
    ensures
        r@ == layout_pm(),
        size(layout_pm()) == PM_SIZE,
{
    let r = vec![Kind::U32, Kind::U32, Kind::U32, Kind::U32];
    proof {
        assert(r@ =~= layout_pm());
        reveal_with_fuel(size, 5);
    }
    r
}

/// The condition that a Pirate's Moon record holds, if it holds one: its
/// last word must be zero.
pub open spec fn parse_cond_pm(s: Seq<u8>) -> Option<Condition> {
    if s.len() == PM_SIZE {
        let f = decode(layout_pm(), s);
        if w32(f, 3) == 0 {
            cond_of(w32(f, 0), w32(f, 1), w32(f, 2))
        } else {
            None
        }
    } else {
        None
    }
}

/// The Pirate's Moon record of a condition.
pub open spec fn serialize_cond_pm(c: Condition) -> Seq<u8> {
    let t = cond_fields(c);
    encode(seq![FieldV::U32(t.0), FieldV::U32(t.1), FieldV::U32(t.2), FieldV::U32(0)])
}

/// Reads a Pirate's Moon condition record.
pub fn read_cond_pm(data: &[u8]) -> (r: Result<Condition, Error>)
    ensures
        match parse_cond_pm(data@) {
            Some(c) => r == Ok::<Condition, Error>(c),
            None => r == Err::<Condition, Error>(Error::Invalid),
        },
{
    if data.len() != 16 {
        return Err(Error::Invalid);
    }
    let l = layout_pm_exec();
    let f = decode_record(data, l.as_slice());
    let ty = get_u32(&f, 0);
    let node = get_u32(&f, 1);
    let value = get_u32(&f, 2);
    let zero = get_u32(&f, 3);
    if zero != 0 {
        Err(Error::Invalid)
    } else if ty == NODE_UNDERCOVER {
        Ok(Condition::NodeUndercover(NodeUndercover { node_index: node, distance: value }))
    } else if node != 0 {
        Err(Error::Invalid)
    } else if ty == RANDOM_WEIGHT {
        Ok(Condition::RandomWeight(value))
    } else if ty == PLAYER_RANGE {
        Ok(Condition::PlayerRange(value))
    } else if ty == ANIMATION_LOD {
        Ok(Condition::AnimationLod(value))
    } else if ty == HW_RENDER && value <= 1 {
        Ok(Condition::HwRender(value == 1))
    } else if ty == PLAYER_FIRST_PERSON && value <= 1 {
        Ok(Condition::PlayerFirstPerson(value == 1))
    } else {
        Err(Error::Invalid)
    }
}

/// Writes a Pirate's Moon condition record.
pub fn write_cond_pm(c: &Condition, out: &mut Vec<u8>)
    ensures
        final(out)@ == old(out)@ + serialize_cond_pm(*c),
{
    let (ty, node, value): (u32, u32, u32) = match c {
        Condition::RandomWeight(v) => (RANDOM_WEIGHT, 0, *v),
        Condition::PlayerRange(v) => (PLAYER_RANGE, 0, *v),
        Condition::AnimationLod(v) => (ANIMATION_LOD, 0, *v),
        Condition::NodeUndercover(n) => (NODE_UNDERCOVER, n.node_index, n.distance),
        Condition::HwRender(b) => (HW_RENDER, 0, if *b { 1 } else { 0 }),
        Condition::PlayerFirstPerson(b) => (PLAYER_FIRST_PERSON, 0, if *b { 1 } else { 0 }),
    };
    let fs = vec![Fld::U32(ty), Fld::U32(node), Fld::U32(value), Fld::U32(0)];
    proof {
        assert(fields_view(fs@) =~= seq![
            FieldV::U32(ty),
            FieldV::U32(node),
            FieldV::U32(value),
            FieldV::U32(0),
        ]);
    }
    encode_record(&fs, out);
}

/// A condition written in the Pirate's Moon form reads back as itself.
pub proof fn lemma_cond_pm_roundtrip(c: Condition)
    ensures
        parse_cond_pm(serialize_cond_pm(c)) == Some(c),
        serialize_cond_pm(c).len() == PM_SIZE,
{
    let t = cond_fields(c);
    let g = seq![FieldV::U32(t.0), FieldV::U32(t.1), FieldV::U32(t.2), FieldV::U32(0)];
    assert(conforms_all(g, layout_pm()));
    lemma_decode_encode(g, layout_pm());
    lemma_encode_size(g, layout_pm());
    reveal_with_fuel(size, 5);
}

/// The `IF` that a Pirate's Moon record holds, if it holds one.
pub open spec fn parse_if_pm(s: Seq<u8>) -> Option<If> {
    match parse_cond_pm(s) {
        Some(c) => Some(If { condition: c }),
        None => None,
    }
}

/// The Pirate's Moon record of an `IF`.
pub open spec fn serialize_if_pm(v: If) -> Option<Seq<u8>> {
    Some(serialize_cond_pm(v.condition))
}

/// Reads a Pirate's Moon `IF` record.
pub fn read_if_pm(data: &[u8]) -> (r: Result<If, Error>)
    ensures
        match parse_if_pm(data@) {
            Some(v) => r matches Ok(x) && x == v,
            None => r == Err::<If, Error>(Error::Invalid),
        },
{
    let c = read_cond_pm(data)?;
    Ok(If { condition: c })
}

/// Writes a Pirate's Moon `IF` record.
pub fn write_if_pm(v: &If, out: &mut Vec<u8>) -> (r: Result<(), Error>)
    ensures
        r is Ok,
        final(out)@ == old(out)@ + serialize_if_pm(*v).unwrap(),
{
    write_cond_pm(&v.condition, out);
    Ok(())
}

/// Writing a Pirate's Moon `IF` that was read, then reading it again,
/// gives the same `IF`.
pub proof fn lemma_reread_if_pm(s: Seq<u8>)
    requires
        parse_if_pm(s) is Some,
    ensures
        serialize_if_pm(parse_if_pm(s).unwrap()) matches Some(b) && b.len() == PM_SIZE
            && parse_if_pm(b) == parse_if_pm(s),
{
    lemma_cond_pm_roundtrip(parse_if_pm(s).unwrap().condition);
}

/// The `ELSEIF` that a Pirate's Moon record holds, if it holds one.
pub open spec fn parse_elseif_pm(s: Seq<u8>) -> Option<Elseif> {
    match parse_cond_pm(s) {
        Some(c) => Some(Elseif { condition: c }),
        None => None,
    }
}

/// The Pirate's Moon record of an `ELSEIF`.
pub open spec fn serialize_elseif_pm(v: Elseif) -> Option<Seq<u8>> {
    Some(serialize_cond_pm(v.condition))
}

/// Reads a Pirate's Moon `ELSEIF` record.
pub fn read_elseif_pm(data: &[u8]) -> (r: Result<Elseif, Error>)
    ensures
        match parse_elseif_pm(data@) {
            Some(v) => r matches Ok(x) && x == v,
            None => r == Err::<Elseif, Error>(Error::Invalid),
        },
{
    let c = read_cond_pm(data)?;
    Ok(Elseif { condition: c })
}

/// Writes a Pirate's Moon `ELSEIF` record.
pub fn write_elseif_pm(v: &Elseif, out: &mut Vec<u8>) -> (r: Result<(), Error>)
    ensures
        r is Ok,
        final(out)@ == old(out)@ + serialize_elseif_pm(*v).unwrap(),
{
    write_cond_pm(&v.condition, out);
    Ok(())
}

/// Writing a Pirate's Moon `ELSEIF` that was read, then reading it again,
/// gives the same `ELSEIF`.
pub proof fn lemma_reread_elseif_pm(s: Seq<u8>)
    requires
        parse_elseif_pm(s) is Some,
    ensures
        serialize_elseif_pm(parse_elseif_pm(s).unwrap()) matches Some(b) && b.len() == PM_SIZE
            && parse_elseif_pm(b) == parse_elseif_pm(s),
{
    lemma_cond_pm_roundtrip(parse_elseif_pm(s).unwrap().condition);
}

/// A condition record is written back exactly as read.
pub proof fn lemma_cond_exact(s: Seq<u8>)
    requires
        parse_cond(s) is Some,
    ensures
        serialize_cond(parse_cond(s).unwrap()) == s,
{
    let f = decode(layout(), s);
    reveal_with_fuel(size, 4);
    crate::record::lemma_decode_conforms(layout(), s);
    crate::record::lemma_encode_decode(layout(), s);
    crate::record::lemma_conforming_fields(f, layout());
    let t = cond_fields(parse_cond(s).unwrap());
    assert(seq![FieldV::U32(t.0), FieldV::U32(t.1), FieldV::U32(t.2)] =~= f);
}

/// An `IF` record is written back exactly as read.
pub proof fn lemma_exact_if(s: Seq<u8>)
    requires
        parse_if(s) is Some,
    ensures
        serialize_if(parse_if(s).unwrap()) == Some(s),
{
    lemma_cond_exact(s);
}

/// An `ELSEIF` record is written back exactly as read.
pub proof fn lemma_exact_elseif(s: Seq<u8>)
    requires
        parse_elseif(s) is Some,
    ensures
        serialize_elseif(parse_elseif(s).unwrap()) == Some(s),
{
    lemma_cond_exact(s);
}

/// An `ELSE` or `ENDIF` record is written back exactly as read.
pub proof fn lemma_exact_empty(s: Seq<u8>)
    requires
        parse_else(s) is Some || parse_endif(s) is Some,
    ensures
        serialize_else(Else {  }) == Some(s),
        serialize_endif(Endif {  }) == Some(s),
{
    assert(s =~= Seq::<u8>::empty());
}

/// A Pirate's Moon condition record is written back exactly as read.
pub proof fn lemma_cond_pm_exact(s: Seq<u8>)
    requires
        parse_cond_pm(s) is Some,
    ensures
        serialize_cond_pm(parse_cond_pm(s).unwrap()) == s,
{
    let f = decode(layout_pm(), s);
    reveal_with_fuel(size, 5);
    crate::record::lemma_decode_conforms(layout_pm(), s);
    crate::record::lemma_encode_decode(layout_pm(), s);
    crate::record::lemma_conforming_fields(f, layout_pm());
    let t = cond_fields(parse_cond_pm(s).unwrap());
    assert(seq![FieldV::U32(t.0), FieldV::U32(t.1), FieldV::U32(t.2), FieldV::U32(0)] =~= f);
}

/// A Pirate's Moon `IF` record is written back exactly as read.
pub proof fn lemma_exact_if_pm(s: Seq<u8>)
    requires
        parse_if_pm(s) is Some,
    ensures
        serialize_if_pm(parse_if_pm(s).unwrap()) == Some(s),
{
    lemma_cond_pm_exact(s);
}

/// A Pirate's Moon `ELSEIF` record is written back exactly as read.
pub proof fn lemma_exact_elseif_pm(s: Seq<u8>)
    requires
        parse_elseif_pm(s) is Some,
    ensures
        serialize_elseif_pm(parse_elseif_pm(s).unwrap()) == Some(s),
{
    lemma_cond_pm_exact(s);
}

/// A condition is stored as the type, node index and value `ty`, `node` and
/// `value`: a random weight, player range or level of detail as the types
/// `1`, `2` and `4` with its number and no node; node undercover as the
/// type `16` with its node index and distance; hardware rendering and first
/// person as the types `32` and `64` with no node and `1` for `true`, `0`
/// for `false`.
pub open spec fn stored_as(c: Condition, ty: u32, node: u32, value: u32) -> bool {
    match c {
        Condition::RandomWeight(w) => ty == 1 && node == 0 && value == w,
        Condition::PlayerRange(r) => ty == 2 && node == 0 && value == r,
        Condition::AnimationLod(l) => ty == 4 && node == 0 && value == l,
        Condition::NodeUndercover(n) => ty == 16 && node == n.node_index && value == n.distance,
        Condition::HwRender(b) => ty == 32 && node == 0 && value == (if b {
            1u32
        } else {
            0u32
        }),
        Condition::PlayerFirstPerson(b) => ty == 64 && node == 0 && value == (if b {
            1u32
        } else {
            0u32
        }),
    }
}

/// A condition read from a record is stored as its first three numbers,
/// little-endian (see `stored_as`).
pub proof fn lemma_cond_read_bytes(s: Seq<u8>)
    requires
        parse_cond(s) is Some,
    ensures
        stored_as(
            parse_cond(s).unwrap(),
            crate::record::le32_at(s, 0),
            crate::record::le32_at(s, 4),
            crate::record::le32_at(s, 8),
        ),
{
    reveal_with_fuel(size, 4);
    assert(layout().take(0) =~= Seq::<Kind>::empty());
    assert(layout().take(1) =~= seq![Kind::U32]);
    assert(layout().take(2) =~= seq![Kind::U32, Kind::U32]);
    crate::record::lemma_numbers_at(layout(), s, 0);
    crate::record::lemma_numbers_at(layout(), s, 1);
    crate::record::lemma_numbers_at(layout(), s, 2);
}

/// The record written for a condition stores it as its three numbers,
/// little-endian (see `stored_as`).
pub proof fn lemma_cond_written_bytes(c: Condition)
    ensures
        stored_as(
            c,
            crate::record::le32_at(serialize_cond(c), 0),
            crate::record::le32_at(serialize_cond(c), 4),
            crate::record::le32_at(serialize_cond(c), 8),
        ),
{
    let t = cond_fields(c);
    let g = seq![FieldV::U32(t.0), FieldV::U32(t.1), FieldV::U32(t.2)];
    assert(crate::record::conforms_all(g, layout())) by {
        assert forall|k: int| 0 <= k < g.len() implies #[trigger] crate::record::conforms(
            g[k],
            layout()[k],
        ) by {}
    }
    reveal_with_fuel(size, 4);
    assert(layout().take(0) =~= Seq::<Kind>::empty());
    assert(layout().take(1) =~= seq![Kind::U32]);
    assert(layout().take(2) =~= seq![Kind::U32, Kind::U32]);
    crate::record::lemma_numbers_written(g, layout(), 0);
    crate::record::lemma_numbers_written(g, layout(), 1);
    crate::record::lemma_numbers_written(g, layout(), 2);
}

/// A Pirate's Moon condition read from a record is stored as its first
/// three numbers, little-endian (see `stored_as`), and the fourth is zero.
pub proof fn lemma_cond_pm_read_bytes(s: Seq<u8>)
    requires
        parse_cond_pm(s) is Some,
    ensures
        stored_as(
            parse_cond_pm(s).unwrap(),
            crate::record::le32_at(s, 0),
            crate::record::le32_at(s, 4),
            crate::record::le32_at(s, 8),
        ),
        crate::record::le32_at(s, 12) == 0,
{
    reveal_with_fuel(size, 5);
    assert(layout_pm().take(0) =~= Seq::<Kind>::empty());
    assert(layout_pm().take(1) =~= seq![Kind::U32]);
    assert(layout_pm().take(2) =~= seq![Kind::U32, Kind::U32]);
    assert(layout_pm().take(3) =~= seq![Kind::U32, Kind::U32, Kind::U32]);
    crate::record::lemma_numbers_at(layout_pm(), s, 0);
    crate::record::lemma_numbers_at(layout_pm(), s, 1);
    crate::record::lemma_numbers_at(layout_pm(), s, 2);
    crate::record::lemma_numbers_at(layout_pm(), s, 3);
}

} // verus!
