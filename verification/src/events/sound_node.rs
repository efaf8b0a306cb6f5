//! `SOUND_NODE` (2): starts or stops a dynamic sound, optionally at a node
//! or at an absolute position.
use vstd::prelude::*;
use crate::anim_def::{index_of, lemma_name_reread, name_at, AnimDef, AnimDefV};
use crate::error::Error;
use crate::model::{
    bool32_exec, bool_int, bool_of, vec3_is_zero, vec3_is_zero_exec, AtNode, Translate, Vec3,
};
use crate::record::{
    conforms_all, decode, decode_record, encode, encode_record, fields_view, get_bytes, get_u32,
    lemma_decode_conforms, lemma_decode_encode, lemma_encode_size, size, w32, wbytes, FieldV, Fld,
    Kind,
};
use crate::text::{bytes_eq, lemma_pad_unpad, pad, pad_exec, unpad, unpad_exec};

use crate::anim_def::{lemma_index_of_name_at};
use crate::record::{lemma_conforming_fields, lemma_encode_decode};
use crate::model::{vec3_no_neg_zero};
verus! {

/// A `SOUND_NODE` event.
#[derive(Debug)]
pub struct SoundNode<N> {
    pub name: N,
    pub active_state: bool,
    pub translate: Option<Translate<N>>,
}

impl DeepView for SoundNode<Vec<u8>> {
    type V = SoundNode<Seq<u8>>;

    open spec fn deep_view(&self) -> SoundNode<Seq<u8>> {
        SoundNode {
            name: self.name@,
            active_state: self.active_state,
            translate: match &self.translate {
                Some(t) => Some(t.deep_view()),
                None => None,
            },
        }
    }
}

/// Size of the record.
pub const SIZE: u32 = 60;

/// Flag bit: the position is absolute.
pub const TRANSLATE_ABS: u32 = 1;

/// Flag bit: the position is relative to a node.
pub const AT_NODE: u32 = 2;

/// Fields: sound name, sound index, flags, active state, node index,
/// position.
pub open spec fn layout() -> Seq<Kind> {
    seq![Kind::Bytes(32), Kind::U32, Kind::U32, Kind::U32, Kind::U32, Kind::U32, Kind::U32, Kind::U32]
}

fn layout_exec() -> (r: Vec<Kind>)
    ensures
        r@ == layout(),
        size(layout()) == SIZE,
{
    let r = vec![
        Kind::Bytes(32),
        Kind::U32,
        Kind::U32,
        Kind::U32,
        Kind::U32,
        Kind::U32,
        Kind::U32,
        Kind::U32,
    ];
    proof {
        assert(r@ =~= layout());
        reveal_with_fuel(size, 9);
    }
    r
}

/// Where the sound plays, from the flags (no bits but the two known ones),
/// the node index and the position: at a node where its flag is set; at
/// an absolute position where only that flag is set; nowhere in particular
/// otherwise, with a zero position. Without a node, the node index is zero.
pub open spec fn translate_of(ad: AnimDefV, flags: u32, node: u32, pos: Vec3) -> Option<
    Option<Translate<Seq<u8>>>,
> {
    if flags > 3 {
        None
    } else if flags >= AT_NODE {
        match name_at(ad.nodes, node as int) {
            Some(n) => Some(Some(Translate::AtNode(AtNode { name: n, pos }))),
            None => None,
        }
    } else if node != 0 {
        None
    } else if flags == TRANSLATE_ABS {
        Some(Some(Translate::Absolute(pos)))
    } else if vec3_is_zero(pos) {
        Some(None)
    } else {
        None
    }
}

/// The flags, node index and position of where a sound plays.
pub open spec fn translate_fields(ad: AnimDefV, t: Option<Translate<Seq<u8>>>) -> Option<
    (u32, u32, Vec3),
> {
    match t {
        Some(Translate::AtNode(a)) => match index_of(ad.nodes, a.name) {
            Some(i) => Some((AT_NODE, i as u32, a.pos)),
            None => None,
        },
        Some(Translate::Absolute(p)) => Some((TRANSLATE_ABS, 0, p)),
        None => Some((0, 0, Vec3 { x: 0, y: 0, z: 0 })),
    }
}

/// The event that the fields of a record describe, if they describe one:
/// the name field holds the name of the sound that the index refers to.
pub open spec fn from_fields(ad: AnimDefV, f: Seq<FieldV>) -> Option<SoundNode<Seq<u8>>> {
    match (
        unpad(wbytes(f, 0)),
        name_at(ad.dynamic_sounds, w32(f, 1) as int),
        bool_of(w32(f, 3) as int),
        translate_of(ad, w32(f, 2), w32(f, 4), Vec3 { x: w32(f, 5), y: w32(f, 6), z: w32(f, 7) }),
    ) {
        (Some(name), Some(expected), Some(active_state), Some(translate)) => if name == expected {
            Some(SoundNode { name, active_state, translate })
        } else {
            None
        },
        _ => None,
    }
}

/// The fields of the record of an event, if it can be written.
pub open spec fn to_fields(ad: AnimDefV, v: SoundNode<Seq<u8>>) -> Option<Seq<FieldV>> {
    match (pad(v.name, 32), index_of(ad.dynamic_sounds, v.name), translate_fields(ad, v.translate)) {
        (Some(nb), Some(si), Some(t)) => Some(
            seq![
                FieldV::Bytes(nb),
                FieldV::U32(si as u32),
                FieldV::U32(t.0),
                FieldV::U32(bool_int(v.active_state) as u32),
                FieldV::U32(t.1),
                FieldV::U32(t.2.x),
                FieldV::U32(t.2.y),
                FieldV::U32(t.2.z),
            ],
        ),
        _ => None,
    }
}

/// The event that a record holds, if it holds one.
pub open spec fn parse(ad: AnimDefV, s: Seq<u8>) -> Option<SoundNode<Seq<u8>>> {
    if s.len() == SIZE {
        from_fields(ad, decode(layout(), s))
    } else {
        None
    }
}

/// The record of an event, if it can be written.
pub open spec fn serialize(ad: AnimDefV, v: SoundNode<Seq<u8>>) -> Option<Seq<u8>> {
    match to_fields(ad, v) {
        Some(f) => Some(encode(f)),
        None => None,
    }
}

/// Reads a `SOUND_NODE` record.
pub fn read(data: &[u8], ad: &AnimDef) -> (r: Result<SoundNode<Vec<u8>>, Error>)
    ensures
        match parse(ad@, data@) {
            Some(v) => r matches Ok(x) && x.deep_view() == v,
            None => r == Err::<SoundNode<Vec<u8>>, Error>(Error::Invalid),
        },
{
    if data.len() != 60 {
        return Err(Error::Invalid);
    }
    let l = layout_exec();
    let f = decode_record(data, l.as_slice());
    let name = match unpad_exec(get_bytes(&f, 0)) {
        Some(n) => n,
        None => return Err(Error::Invalid),
    };
    let expected = ad.dyn_sound_from_index(get_u32(&f, 1))?;
    if !bytes_eq(&name, &expected) {
        return Err(Error::Invalid);
    }
    let flags = get_u32(&f, 2);
    let active_state = match bool32_exec(get_u32(&f, 3)) {
        Some(b) => b,
        None => return Err(Error::Invalid),
    };
    let node = get_u32(&f, 4);
    let pos = Vec3 { x: get_u32(&f, 5), y: get_u32(&f, 6), z: get_u32(&f, 7) };
    let translate = if flags > 3 {
        return Err(Error::Invalid);
    } else if flags >= AT_NODE {
        let n = ad.node_from_index(node)?;
        Some(Translate::AtNode(AtNode { name: n, pos }))
    } else if node != 0 {
        return Err(Error::Invalid);
    } else if flags == TRANSLATE_ABS {
        Some(Translate::Absolute(pos))
    } else if vec3_is_zero_exec(pos) {
        None
    } else {
        return Err(Error::Invalid);
    };
    Ok(SoundNode { name, active_state, translate })
}

/// Writes a `SOUND_NODE` record.
pub fn write(v: &SoundNode<Vec<u8>>, ad: &AnimDef, out: &mut Vec<u8>) -> (r: Result<(), Error>)
    ensures
        match serialize(ad@, v.deep_view()) {
            Some(b) => r is Ok && final(out)@ == old(out)@ + b,
            None => r == Err::<(), Error>(Error::Invalid) && final(out)@ == old(out)@,
        },
{
    let nb = match pad_exec(&v.name, 32) {
        Some(b) => b,
        None => return Err(Error::Invalid),
    };
    let si = ad.dyn_sound_to_index(&v.name)?;
    let (flags, node, pos): (u32, u32, Vec3) = match &v.translate {
        Some(Translate::AtNode(a)) => {
            let i = ad.node_to_index(&a.name)?;
            (AT_NODE, i as u32, a.pos)
        },
        Some(Translate::Absolute(p)) => (TRANSLATE_ABS, 0, *p),
        None => (0, 0, Vec3 { x: 0, y: 0, z: 0 }),
    };
    let active: u32 = if v.active_state {
        1
    } else {
        0
    };
    let ghost nbv = nb@;
    let fs = vec![
        Fld::Bytes(nb),
        Fld::U32(si as u32),
        Fld::U32(flags),
        Fld::U32(active),
        Fld::U32(node),
        Fld::U32(pos.x),
        Fld::U32(pos.y),
        Fld::U32(pos.z),
    ];
    proof {
        assert(fields_view(fs@) =~= to_fields(ad@, v.deep_view()).unwrap());
    }
    encode_record(&fs, out);
    Ok(())
}

/// Writing an event that was read, then reading it again, gives the same
/// event.
pub proof fn lemma_reread(ad: AnimDefV, s: Seq<u8>)
    requires
        parse(ad, s) is Some,
    ensures
        serialize(ad, parse(ad, s).unwrap()) matches Some(b) && parse(ad, b) == parse(ad, s),
{
    let f = decode(layout(), s);
    reveal_with_fuel(size, 9);
    lemma_decode_conforms(layout(), s);
    assert(conforms_all(f, layout()));
    assert(wbytes(f, 0).len() == 32);
    lemma_pad_unpad(wbytes(f, 0));
    lemma_name_reread(ad.dynamic_sounds, w32(f, 1) as int);
    if w32(f, 2) >= AT_NODE && w32(f, 2) <= 3 {
        lemma_name_reread(ad.nodes, w32(f, 4) as int);
    }
    let v = parse(ad, s).unwrap();
    let g = to_fields(ad, v).unwrap();
    assert(conforms_all(g, layout()));
    lemma_decode_encode(g, layout());
    lemma_encode_size(g, layout());
    crate::text::lemma_unpad_pad(v.name, 32);
}

/// A record that is written has the record's size.
pub proof fn lemma_written_size(ad: AnimDefV, v: SoundNode<Seq<u8>>)
    requires
        serialize(ad, v) is Some,
    ensures
        serialize(ad, v).unwrap().len() == SIZE,
{
    let g = to_fields(ad, v).unwrap();
    assert(conforms_all(g, layout()));
    lemma_encode_size(g, layout());
    reveal_with_fuel(size, 9);
}

/// The record is written back exactly as read: only one of the two position flags is set, and a position that is not set
/// has no `-0.0`.
pub open spec fn exact_record(ad: AnimDefV, s: Seq<u8>) -> bool {
    let f = decode(layout(), s);
    &&& w32(f, 2) != 3
    &&& w32(f, 2) == 0 ==> vec3_no_neg_zero(Vec3 { x: w32(f, 5), y: w32(f, 6), z: w32(f, 7) })
}

/// Writing the event of a record gives the record back, where the dynamic
/// sounds and the nodes of the definition are distinct and the record is
/// written back exactly.
pub proof fn lemma_exact(ad: AnimDefV, s: Seq<u8>)
    requires
        parse(ad, s) is Some,
        crate::anim_def::unique_names(ad.dynamic_sounds),
        crate::anim_def::unique_names(ad.nodes),
        exact_record(ad, s),
    ensures
        serialize(ad, parse(ad, s).unwrap()) == Some(s),
{
    let f = decode(layout(), s);
    reveal_with_fuel(size, 9);
    lemma_decode_conforms(layout(), s);
    lemma_encode_decode(layout(), s);
    lemma_conforming_fields(f, layout());
    crate::text::lemma_pad_unpad(wbytes(f, 0));
    lemma_index_of_name_at(ad.dynamic_sounds, w32(f, 1) as int);
    if w32(f, 2) >= AT_NODE {
        lemma_index_of_name_at(ad.nodes, w32(f, 4) as int);
    }
    assert(to_fields(ad, parse(ad, s).unwrap()).unwrap() =~= f);
}

/// The active state of an event read from a record is given by the four
/// bytes at offset 40, read as a little-endian number: `true` where they hold
/// `1`, `false` where they hold `0` (a record holding any other number is not
/// read).
pub proof fn lemma_active_state_read(ad: AnimDefV, s: Seq<u8>)
    requires
        parse(ad, s) is Some,
    ensures
        vstd::bytes::spec_u32_from_le_bytes(s.subrange(40, 44)) == (if parse(ad, s).unwrap().active_state {
            1u32
        } else {
            0u32
        }),
{
    reveal_with_fuel(size, 9);
    assert(layout().take(3) =~= seq![Kind::Bytes(32), Kind::U32, Kind::U32]);
    crate::record::lemma_decode_u32(layout(), s, 3);
}

/// The record written for an event holds its active state in the four bytes
/// at offset 40, little-endian: `1` for `true`, `0` for `false`.
pub proof fn lemma_active_state_written(ad: AnimDefV, v: SoundNode<Seq<u8>>)
    requires
        serialize(ad, v) is Some,
    ensures
        serialize(ad, v).unwrap().subrange(40, 44) == vstd::bytes::spec_u32_to_le_bytes(
            if v.active_state {
                1u32
            } else {
                0u32
            },
        ),
{
    let g = to_fields(ad, v).unwrap();
    assert(pad(v.name, 32).unwrap().len() == 32);
    assert(conforms_all(g, layout())) by {
        assert forall|k: int| 0 <= k < g.len() implies #[trigger] crate::record::conforms(
            g[k],
            layout()[k],
        ) by {}
    }
    reveal_with_fuel(size, 9);
    assert(layout().take(3) =~= seq![Kind::Bytes(32), Kind::U32, Kind::U32]);
    crate::record::lemma_encode_u32(g, layout(), 3);
}

/// The offset of each field of the record.
proof fn lemma_offsets()
    ensures
        size(layout().take(0)) == 0,
        size(layout().take(1)) == 32,
        size(layout().take(2)) == 36,
        size(layout().take(3)) == 40,
        size(layout().take(4)) == 44,
        size(layout().take(5)) == 48,
        size(layout().take(6)) == 52,
        size(layout().take(7)) == 56,
{
    reveal_with_fuel(size, 9);
    assert(layout().take(0) =~= Seq::<Kind>::empty());
    assert(layout().take(1) =~= seq![Kind::Bytes(32)]);
    assert(layout().take(2) =~= seq![Kind::Bytes(32), Kind::U32]);
    assert(layout().take(3) =~= seq![Kind::Bytes(32), Kind::U32, Kind::U32]);
    assert(layout().take(4) =~= seq![Kind::Bytes(32), Kind::U32, Kind::U32, Kind::U32]);
    assert(layout().take(5) =~= seq![Kind::Bytes(32), Kind::U32, Kind::U32, Kind::U32, Kind::U32]);
    assert(layout().take(6) =~= seq![Kind::Bytes(32), Kind::U32, Kind::U32, Kind::U32, Kind::U32, Kind::U32]);
    assert(layout().take(7) =~= seq![Kind::Bytes(32), Kind::U32, Kind::U32, Kind::U32, Kind::U32, Kind::U32, Kind::U32]);
}

/// An event read from a record holds the record's bytes and numbers,
/// little-endian: its name is the name in the first 32 bytes, and the sound
/// that the number at offset 32 refers to; the number at offset 36 says
/// where it plays: `0` nowhere in particular, `1` at the absolute position
/// of the three numbers at offsets 48, 52 and 56, and `2` or `3` at the node
/// that the number at offset 44 refers to, at that position.
pub proof fn lemma_read_bytes(ad: AnimDefV, s: Seq<u8>)
    requires
        parse(ad, s) is Some,
    ensures
        ({
            let v = parse(ad, s).unwrap();
            let p = Vec3 {
                x: crate::record::le32_at(s, 48),
                y: crate::record::le32_at(s, 52),
                z: crate::record::le32_at(s, 56),
            };
            let fl = crate::record::le32_at(s, 36);
            &&& unpad(s.subrange(0, 32)) == Some(v.name)
            &&& name_at(ad.dynamic_sounds, crate::record::le32_at(s, 32) as int) == Some(v.name)
            &&& match v.translate {
                None => fl == 0,
                Some(Translate::Absolute(q)) => fl == TRANSLATE_ABS && q == p,
                Some(Translate::AtNode(a)) => (fl == 2 || fl == 3) && name_at(
                    ad.nodes,
                    crate::record::le32_at(s, 44) as int,
                ) == Some(a.name) && a.pos == p,
            }
        }),
{
    lemma_offsets();
    crate::record::lemma_decode_field(layout(), s, 0);
    crate::record::lemma_numbers_at(layout(), s, 1);
    crate::record::lemma_numbers_at(layout(), s, 2);
    crate::record::lemma_numbers_at(layout(), s, 4);
    crate::record::lemma_numbers_at(layout(), s, 5);
    crate::record::lemma_numbers_at(layout(), s, 6);
    crate::record::lemma_numbers_at(layout(), s, 7);
}

/// The record written for an event holds, little-endian, its name in the
/// first 32 bytes; at offset 32 a number that refers to its sound; at offset
/// 36 `0` where it plays nowhere in particular, `1` where at an absolute
/// position and `2` where at a node; at offset 44 a number that refers to
/// that node; and its position as the three numbers at offsets 48, 52 and
/// 56.
pub proof fn lemma_written_bytes(ad: AnimDefV, v: SoundNode<Seq<u8>>)
    requires
        serialize(ad, v) is Some,
    ensures
        ({
            let b = serialize(ad, v).unwrap();
            let fl = crate::record::le32_at(b, 36);
            &&& unpad(b.subrange(0, 32)) == Some(v.name)
            &&& name_at(ad.dynamic_sounds, crate::record::le32_at(b, 32) as int) == Some(v.name)
            &&& match v.translate {
                None => fl == 0,
                Some(Translate::Absolute(q)) => fl == TRANSLATE_ABS && crate::record::le32_at(b, 48)
                    == q.x && crate::record::le32_at(b, 52) == q.y && crate::record::le32_at(b, 56)
                    == q.z,
                Some(Translate::AtNode(a)) => fl == AT_NODE && name_at(
                    ad.nodes,
                    crate::record::le32_at(b, 44) as int,
                ) == Some(a.name) && crate::record::le32_at(b, 48) == a.pos.x
                    && crate::record::le32_at(b, 52) == a.pos.y && crate::record::le32_at(b, 56)
                    == a.pos.z,
            }
        }),
{
    let g = to_fields(ad, v).unwrap();
    assert(pad(v.name, 32).unwrap().len() == 32);
    assert(conforms_all(g, layout())) by {
        assert forall|k: int| 0 <= k < g.len() implies #[trigger] crate::record::conforms(
            g[k],
            layout()[k],
        ) by {}
    }
    lemma_offsets();
    crate::text::lemma_unpad_pad(v.name, 32);
    crate::anim_def::lemma_name_at_index_of(ad.dynamic_sounds, v.name);
    if let Some(Translate::AtNode(a)) = v.translate {
        crate::anim_def::lemma_name_at_index_of(ad.nodes, a.name);
    }
    crate::record::lemma_encode_size(g, layout());
    crate::record::lemma_decode_encode(g, layout());
    crate::record::lemma_decode_field(layout(), encode(g), 0);
    crate::record::lemma_numbers_written(g, layout(), 1);
    crate::record::lemma_numbers_written(g, layout(), 2);
    crate::record::lemma_numbers_written(g, layout(), 4);
    crate::record::lemma_numbers_written(g, layout(), 5);
    crate::record::lemma_numbers_written(g, layout(), 6);
    crate::record::lemma_numbers_written(g, layout(), 7);
}

} // verus!
