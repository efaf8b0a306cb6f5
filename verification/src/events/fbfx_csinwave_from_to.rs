//! `FBFX_CSINWAVE_FROM_TO` (37): a screen wave effect that changes over
//! time, on the screen or at a node.
//!
//! Each value that changes over the run time is stored with its per-second
//! change, `(to - from) / run_time` in floating point; the stored change is
//! kept as it is, and comparing it with the computed one is left to the
//! caller. A value that is not set is stored as zeros.
use vstd::prelude::*;
use crate::anim_def::{index_of, lemma_index_of_name_at, lemma_name_reread, name_at, AnimDef, AnimDefV};
use crate::error::Error;
use crate::flags::{bit, bit_exec, lemma_word4, lemma_word4_rebuild, word4, word4_exec};
use crate::float;
use crate::model::{vec3_is_zero, vec3_is_zero_exec, vec3_no_neg_zero, AtNode, FloatFromTo, Vec3};
use crate::record::{
    conforms, conforms_all, decode, decode_record, encode, encode_record, fields_view, get_u16,
    get_u32, lemma_conforming_fields, lemma_decode_conforms, lemma_decode_encode, lemma_encode_decode,
    lemma_encode_size, size, w16, w32, FieldV, Fld, Kind,
};

verus! {

/// The position of the wave on the screen.
#[derive(Clone, Copy, Debug, PartialEq, Eq, Structural)]
pub struct FbfxCsinwaveScreenPos {
    pub x: FloatFromTo,
    pub y: FloatFromTo,
}

/// The wave's three components.
#[derive(Clone, Copy, Debug, PartialEq, Eq, Structural)]
pub struct FbfxCsinwaveCsin {
    pub x: FloatFromTo,
    pub y: FloatFromTo,
    pub z: FloatFromTo,
}

/// A `from`/`to` pair of `f32` values that the record stores without a
/// per-second change.
#[derive(Clone, Copy, Debug, PartialEq, Eq, Structural)]
pub struct FromTo {
    pub from: u32,
    pub to: u32,
}

/// A `FBFX_CSINWAVE_FROM_TO` event.
#[derive(Debug)]
pub struct FbfxCsinwaveFromTo<N> {
    pub at_node: Option<AtNode<N>>,
    pub screen_pos: Option<FbfxCsinwaveScreenPos>,
    pub world_radius: Option<FromTo>,
    pub screen_radius: Option<FloatFromTo>,
    pub csin: FbfxCsinwaveCsin,
    pub run_time: u32,
}

impl DeepView for FbfxCsinwaveFromTo<Vec<u8>> {
    type V = FbfxCsinwaveFromTo<Seq<u8>>;

    open spec fn deep_view(&self) -> FbfxCsinwaveFromTo<Seq<u8>> {
        FbfxCsinwaveFromTo {
            at_node: match &self.at_node {
                Some(a) => Some(a.deep_view()),
                None => None,
            },
            screen_pos: self.screen_pos,
            world_radius: self.world_radius,
            screen_radius: self.screen_radius,
            csin: self.csin,
            run_time: self.run_time,
        }
    }
}

/// Size of the record.
pub const SIZE: u32 = 100;

/// Flag bits: screen position, node, screen radius, world radius.
pub const SCREEN_POS: u32 = 0;

pub const AT_NODE: u32 = 1;

pub const SCREEN_RADIUS: u32 = 2;

pub const WORLD_RADIUS: u32 = 3;

/// Fields: flags and node index (two bytes each), translation, screen x and
/// y (from, to, change), world radius (from, to), screen radius and the
/// three wave components (from, to, change), run time.
pub open spec fn layout() -> Seq<Kind> {
    seq![Kind::U16, Kind::U16] + Seq::new(24, |i: int| Kind::U32)
}

fn layout_exec() -> (r: Vec<Kind>)
    ensures
        r@ == layout(),
        size(layout()) == SIZE,
{
    let mut r = vec![Kind::U16, Kind::U16];
    let mut i: usize = 0;
    while i < 24
        invariant
            0 <= i <= 24,
            r@ == seq![Kind::U16, Kind::U16] + Seq::new(i as nat, |k: int| Kind::U32),
        decreases 24 - i,
    {
        r.push(Kind::U32);
        i = i + 1;
        proof {
            assert(r@ =~= seq![Kind::U16, Kind::U16] + Seq::new(i as nat, |k: int| Kind::U32));
        }
    }
    proof {
        assert(r@ =~= layout());
        reveal_with_fuel(size, 27);
    }
    r
}

/// The value of fields `i` to `i + 2`.
pub open spec fn ft_at(f: Seq<FieldV>, i: int) -> FloatFromTo {
    FloatFromTo { from: w32(f, i), to: w32(f, i + 1), delta: w32(f, i + 2) }
}

/// All three parts of a value compare equal to `0.0`.
pub open spec fn ft_is_zero(v: FloatFromTo) -> bool {
    float::is_zero(v.from) && float::is_zero(v.to) && float::is_zero(v.delta)
}

/// The event that the fields of a record describe, if they describe one:
/// a positive run time, only the four known flags, and each part present
/// where its flag is set and zero otherwise (a node index of zero where no
/// node is set).
pub open spec fn from_fields(ad: AnimDefV, f: Seq<FieldV>) -> Option<
    FbfxCsinwaveFromTo<Seq<u8>>,
> {
    let fl = w16(f, 0) as u32;
    let run_time = w32(f, 25);
    let pos = Vec3 { x: w32(f, 2), y: w32(f, 3), z: w32(f, 4) };
    let wr = FromTo { from: w32(f, 11), to: w32(f, 12) };
    if !float::lt(float::ZERO, run_time) || fl >= 16 {
        None
    } else {
        let at_node = if bit(fl, AT_NODE) {
            match name_at(ad.nodes, w16(f, 1) as int) {
                Some(name) => Some(Some(AtNode { name, pos })),
                None => None,
            }
        } else if w16(f, 1) == 0 && vec3_is_zero(pos) {
            Some(None)
        } else {
            None
        };
        let screen_pos = if bit(fl, SCREEN_POS) {
            Some(Some(FbfxCsinwaveScreenPos { x: ft_at(f, 5), y: ft_at(f, 8) }))
        } else if ft_is_zero(ft_at(f, 5)) && ft_is_zero(ft_at(f, 8)) {
            Some(None)
        } else {
            None
        };
        let world_radius = if bit(fl, WORLD_RADIUS) {
            Some(Some(wr))
        } else if float::is_zero(wr.from) && float::is_zero(wr.to) {
            Some(None)
        } else {
            None
        };
        let screen_radius = if bit(fl, SCREEN_RADIUS) {
            Some(Some(ft_at(f, 13)))
        } else if ft_is_zero(ft_at(f, 13)) {
            Some(None)
        } else {
            None
        };
        match (at_node, screen_pos, world_radius, screen_radius) {
            (Some(at_node), Some(screen_pos), Some(world_radius), Some(screen_radius)) => Some(
                FbfxCsinwaveFromTo {
                    at_node,
                    screen_pos,
                    world_radius,
                    screen_radius,
                    csin: FbfxCsinwaveCsin { x: ft_at(f, 16), y: ft_at(f, 19), z: ft_at(f, 22) },
                    run_time,
                },
            ),
            _ => None,
        }
    }
}

/// A value, or zeros.
pub open spec fn stored(o: Option<FloatFromTo>) -> FloatFromTo {
    match o {
        Some(v) => v,
        None => FloatFromTo { from: 0, to: 0, delta: 0 },
    }
}

/// The three fields of a value.
pub open spec fn ft_fields(v: FloatFromTo) -> Seq<FieldV> {
    seq![FieldV::U32(v.from), FieldV::U32(v.to), FieldV::U32(v.delta)]
}

/// The fields of the record of an event, if it can be written: its node,
/// if any, has an index.
pub open spec fn to_fields(ad: AnimDefV, v: FbfxCsinwaveFromTo<Seq<u8>>) -> Option<Seq<FieldV>> {
    let node = match v.at_node {
        Some(a) => index_of(ad.nodes, a.name),
        None => Some(0),
    };
    let pos = match v.at_node {
        Some(a) => a.pos,
        None => Vec3 { x: 0, y: 0, z: 0 },
    };
    let sp = match v.screen_pos {
        Some(p) => p,
        None => FbfxCsinwaveScreenPos {
            x: FloatFromTo { from: 0, to: 0, delta: 0 },
            y: FloatFromTo { from: 0, to: 0, delta: 0 },
        },
    };
    let wr = match v.world_radius {
        Some(w) => w,
        None => FromTo { from: 0, to: 0 },
    };
    let fl = word4(
        v.screen_pos is Some,
        v.at_node is Some,
        v.screen_radius is Some,
        v.world_radius is Some,
    );
    match node {
        Some(ni) => Some(
            seq![
                FieldV::U16(fl as u16),
                FieldV::U16(ni as u16),
                FieldV::U32(pos.x),
                FieldV::U32(pos.y),
                FieldV::U32(pos.z),
            ] + ft_fields(sp.x) + ft_fields(sp.y) + seq![FieldV::U32(wr.from), FieldV::U32(wr.to)]
                + ft_fields(stored(v.screen_radius)) + ft_fields(v.csin.x) + ft_fields(v.csin.y)
                + ft_fields(v.csin.z) + seq![FieldV::U32(v.run_time)],
        ),
        None => None,
    }
}

/// The event that a record holds, if it holds one.
pub open spec fn parse(ad: AnimDefV, s: Seq<u8>) -> Option<FbfxCsinwaveFromTo<Seq<u8>>> {
    if s.len() == SIZE {
        from_fields(ad, decode(layout(), s))
    } else {
        None
    }
}

/// The record of an event, if it can be written.
pub open spec fn serialize(ad: AnimDefV, v: FbfxCsinwaveFromTo<Seq<u8>>) -> Option<Seq<u8>> {
    match to_fields(ad, v) {
        Some(f) => Some(encode(f)),
        None => None,
    }
}

fn ft_exec(f: &Vec<Fld>, i: usize) -> (r: FloatFromTo)
    requires
        i < 64,
        i + 2 < f@.len(),
        fields_view(f@)[i as int] is U32,
        fields_view(f@)[i + 1] is U32,
        fields_view(f@)[i + 2] is U32,
    ensures
        r == ft_at(fields_view(f@), i as int),
{
    FloatFromTo { from: get_u32(f, i), to: get_u32(f, i + 1), delta: get_u32(f, i + 2) }
}

fn ft_is_zero_exec(v: FloatFromTo) -> (r: bool)
    ensures
        r == ft_is_zero(v),
{
    float::f32_is_zero(v.from) && float::f32_is_zero(v.to) && float::f32_is_zero(v.delta)
}

/// Reads a `FBFX_CSINWAVE_FROM_TO` record.
pub fn read(data: &[u8], ad: &AnimDef) -> (r: Result<FbfxCsinwaveFromTo<Vec<u8>>, Error>)
    ensures
        match parse(ad@, data@) {
            Some(v) => r matches Ok(x) && x.deep_view() == v,
            None => r == Err::<FbfxCsinwaveFromTo<Vec<u8>>, Error>(Error::Invalid),
        },
{
    if data.len() != 100 {
        return Err(Error::Invalid);
    }
    let l = layout_exec();
    let f = decode_record(data, l.as_slice());
    let ghost fv = fields_view(f@);
    assert forall|i: int| 2 <= i < 26 implies fv[i] is U32 by {
        assert(conforms(fv[i], layout()[i]));
    }
    assert(fv[0] is U16 && fv[1] is U16) by {
        assert(conforms(fv[0], layout()[0]));
        assert(conforms(fv[1], layout()[1]));
    }
    let fl = get_u16(&f, 0) as u32;
    let run_time = get_u32(&f, 25);
    if !float::f32_lt(float::ZERO, run_time) || fl >= 16 {
        return Err(Error::Invalid);
    }
    let ni = get_u16(&f, 1);
    let pos = Vec3 { x: get_u32(&f, 2), y: get_u32(&f, 3), z: get_u32(&f, 4) };
    let at_node = if bit_exec(fl, AT_NODE) {
        let name = ad.node_from_index(ni as u32)?;
        Some(AtNode { name, pos })
    } else if ni == 0 && vec3_is_zero_exec(pos) {
        None
    } else {
        return Err(Error::Invalid);
    };
    let sx = ft_exec(&f, 5);
    let sy = ft_exec(&f, 8);
    let screen_pos = if bit_exec(fl, SCREEN_POS) {
        Some(FbfxCsinwaveScreenPos { x: sx, y: sy })
    } else if ft_is_zero_exec(sx) && ft_is_zero_exec(sy) {
        None
    } else {
        return Err(Error::Invalid);
    };
    let wr = FromTo { from: get_u32(&f, 11), to: get_u32(&f, 12) };
    let world_radius = if bit_exec(fl, WORLD_RADIUS) {
        Some(wr)
    } else if float::f32_is_zero(wr.from) && float::f32_is_zero(wr.to) {
        None
    } else {
        return Err(Error::Invalid);
    };
    let sr = ft_exec(&f, 13);
    let screen_radius = if bit_exec(fl, SCREEN_RADIUS) {
        Some(sr)
    } else if ft_is_zero_exec(sr) {
        None
    } else {
        return Err(Error::Invalid);
    };
    let csin = FbfxCsinwaveCsin { x: ft_exec(&f, 16), y: ft_exec(&f, 19), z: ft_exec(&f, 22) };
    Ok(FbfxCsinwaveFromTo { at_node, screen_pos, world_radius, screen_radius, csin, run_time })
}

/// Writes a `FBFX_CSINWAVE_FROM_TO` record.
pub fn write(v: &FbfxCsinwaveFromTo<Vec<u8>>, ad: &AnimDef, out: &mut Vec<u8>) -> (r: Result<
    (),
    Error,
>)
    ensures
        match serialize(ad@, v.deep_view()) {
            Some(b) => r is Ok && final(out)@ == old(out)@ + b,
            None => r == Err::<(), Error>(Error::Invalid) && final(out)@ == old(out)@,
        },
{
    let (ni, pos): (u16, Vec3) = match &v.at_node {
        Some(a) => {
            let i = ad.node_to_index(&a.name)?;
            (i, a.pos)
        },
        None => (0, Vec3 { x: 0, y: 0, z: 0 }),
    };
    let zero = FloatFromTo { from: 0, to: 0, delta: 0 };
    let sp = match v.screen_pos {
        Some(p) => p,
        None => FbfxCsinwaveScreenPos { x: zero, y: zero },
    };
    let wr = match v.world_radius {
        Some(w) => w,
        None => FromTo { from: 0, to: 0 },
    };
    let sr = match v.screen_radius {
        Some(s) => s,
        None => zero,
    };
    let fl = word4_exec(
        v.screen_pos.is_some(),
        v.at_node.is_some(),
        v.screen_radius.is_some(),
        v.world_radius.is_some(),
    );
    proof {
        lemma_word4(
            v.screen_pos is Some,
            v.at_node is Some,
            v.screen_radius is Some,
            v.world_radius is Some,
        );
    }
    let fs = vec![
        Fld::U16(fl as u16),
        Fld::U16(ni),
        Fld::U32(pos.x),
        Fld::U32(pos.y),
        Fld::U32(pos.z),
        Fld::U32(sp.x.from),
        Fld::U32(sp.x.to),
        Fld::U32(sp.x.delta),
        Fld::U32(sp.y.from),
        Fld::U32(sp.y.to),
        Fld::U32(sp.y.delta),
        Fld::U32(wr.from),
        Fld::U32(wr.to),
        Fld::U32(sr.from),
        Fld::U32(sr.to),
        Fld::U32(sr.delta),
        Fld::U32(v.csin.x.from),
        Fld::U32(v.csin.x.to),
        Fld::U32(v.csin.x.delta),
        Fld::U32(v.csin.y.from),
        Fld::U32(v.csin.y.to),
        Fld::U32(v.csin.y.delta),
        Fld::U32(v.csin.z.from),
        Fld::U32(v.csin.z.to),
        Fld::U32(v.csin.z.delta),
        Fld::U32(v.run_time),
    ];
    proof {
        assert(fields_view(fs@) =~= to_fields(ad@, v.deep_view()).unwrap());
    }
    encode_record(&fs, out);
    Ok(())
}

/// Writing an event that was read, then reading it again, gives the same
/// event.
/// The fields of an event hold its values.
#[verifier::rlimit(40)]
proof fn lemma_fields_shape(ad: AnimDefV, v: FbfxCsinwaveFromTo<Seq<u8>>)
    requires
        to_fields(ad, v) is Some,
    ensures
        ({
            let g = to_fields(ad, v).unwrap();
            let zero = FloatFromTo { from: 0, to: 0, delta: 0 };
            &&& conforms_all(g, layout())
            &&& w16(g, 0) == word4(
                v.screen_pos is Some,
                v.at_node is Some,
                v.screen_radius is Some,
                v.world_radius is Some,
            ) as u16
            &&& w16(g, 1) == match v.at_node {
                Some(a) => index_of(ad.nodes, a.name).unwrap() as u16,
                None => 0u16,
            }
            &&& (Vec3 { x: w32(g, 2), y: w32(g, 3), z: w32(g, 4) }) == match v.at_node {
                Some(a) => a.pos,
                None => Vec3 { x: 0, y: 0, z: 0 },
            }
            &&& ft_at(g, 5) == match v.screen_pos {
                Some(p) => p.x,
                None => zero,
            }
            &&& ft_at(g, 8) == match v.screen_pos {
                Some(p) => p.y,
                None => zero,
            }
            &&& (FromTo { from: w32(g, 11), to: w32(g, 12) }) == match v.world_radius {
                Some(w) => w,
                None => FromTo { from: 0, to: 0 },
            }
            &&& ft_at(g, 13) == stored(v.screen_radius)
            &&& ft_at(g, 16) == v.csin.x
            &&& ft_at(g, 19) == v.csin.y
            &&& ft_at(g, 22) == v.csin.z
            &&& w32(g, 25) == v.run_time
        }),
{
    let g = to_fields(ad, v).unwrap();
    assert(g.len() == 26);
    assert forall|k: int| 0 <= k < g.len() implies conforms(#[trigger] g[k], layout()[k]) by {}
}

/// Writing an event that was read, then reading it again, gives the same
/// event.
#[verifier::rlimit(40)]
pub proof fn lemma_reread(ad: AnimDefV, s: Seq<u8>)
    requires
        parse(ad, s) is Some,
    ensures
        serialize(ad, parse(ad, s).unwrap()) matches Some(b) && parse(ad, b) == parse(ad, s),
{
    let f = decode(layout(), s);
    let v = parse(ad, s).unwrap();
    let fl = w16(f, 0) as u32;
    if bit(fl, AT_NODE) {
        lemma_name_reread(ad.nodes, w16(f, 1) as int);
    }
    lemma_word4(
        v.screen_pos is Some,
        v.at_node is Some,
        v.screen_radius is Some,
        v.world_radius is Some,
    );
    lemma_fields_shape(ad, v);
    let g = to_fields(ad, v).unwrap();
    lemma_decode_encode(g, layout());
    lemma_encode_size(g, layout());
    assert(size(layout()) == SIZE) by {
        reveal_with_fuel(size, 27);
    }
    assert(from_fields(ad, g) == Some(v));
}

/// A record that is written has the record's size.
#[verifier::spinoff_prover]
pub proof fn lemma_written_size(ad: AnimDefV, v: FbfxCsinwaveFromTo<Seq<u8>>)
    requires
        serialize(ad, v) is Some,
    ensures
        serialize(ad, v).unwrap().len() == SIZE,
{
    lemma_fields_shape(ad, v);
    let g = to_fields(ad, v).unwrap();
    lemma_encode_size(g, layout());
    lemma_layout_size();
}

/// The layout has the record's size.
proof fn lemma_layout_size()
    ensures
        size(layout()) == SIZE,
{
    reveal_with_fuel(size, 27);
}

/// The record is written back exactly as read: no part whose flag is unset
/// holds `-0.0`.
pub open spec fn exact_record(ad: AnimDefV, s: Seq<u8>) -> bool {
    let f = decode(layout(), s);
    let fl = w16(f, 0) as u32;
    &&& bit(fl, AT_NODE) || vec3_no_neg_zero(Vec3 { x: w32(f, 2), y: w32(f, 3), z: w32(f, 4) })
    &&& bit(fl, SCREEN_POS) || (ft_no_neg_zero(ft_at(f, 5)) && ft_no_neg_zero(ft_at(f, 8)))
    &&& bit(fl, WORLD_RADIUS) || (w32(f, 11) != float::NEG_ZERO && w32(f, 12) != float::NEG_ZERO)
    &&& bit(fl, SCREEN_RADIUS) || ft_no_neg_zero(ft_at(f, 13))
}

/// No part of a value is `-0.0`.
pub open spec fn ft_no_neg_zero(v: FloatFromTo) -> bool {
    v.from != float::NEG_ZERO && v.to != float::NEG_ZERO && v.delta != float::NEG_ZERO
}

/// Writing the event of a record gives the record back, where the nodes of the
/// definition are distinct and the record is written back exactly.
#[verifier::rlimit(40)]
pub proof fn lemma_exact(ad: AnimDefV, s: Seq<u8>)
    requires
        parse(ad, s) is Some,
        crate::anim_def::unique_names(ad.nodes),
        exact_record(ad, s),
    ensures
        serialize(ad, parse(ad, s).unwrap()) == Some(s),
{
    let f = decode(layout(), s);
    lemma_layout_size();
    lemma_decode_conforms(layout(), s);
    lemma_encode_decode(layout(), s);
    lemma_conforming_fields(f, layout());
    let fl = w16(f, 0) as u32;
    if bit(fl, AT_NODE) {
        lemma_index_of_name_at(ad.nodes, w16(f, 1) as int);
    }
    lemma_word4_rebuild(fl);
    assert(to_fields(ad, parse(ad, s).unwrap()).unwrap() =~= f);
}

/// Field `i` of the record starts at byte `2 * i` for the first two, and
/// `4 + 4 * (i - 2)` after them.
proof fn lemma_offset(i: int)
    requires
        0 <= i < 26,
    ensures
        layout()[i] == (if i < 2 { Kind::U16 } else { Kind::U32 }),
        size(layout().take(i)) == (if i < 2 { 2 * i } else { 4 + 4 * (i - 2) }),
{
    let h = seq![Kind::U16, Kind::U16];
    if i < 2 {
        reveal_with_fuel(size, 3);
        if i == 0 {
            assert(layout().take(i) =~= Seq::<Kind>::empty());
        } else {
            assert(layout().take(i) =~= seq![Kind::U16]);
        }
    } else {
        assert(layout().take(i) =~= h + Seq::new((i - 2) as nat, |k: int| Kind::U32));
        crate::record::lemma_size_append(h, Seq::new((i - 2) as nat, |k: int| Kind::U32));
        crate::record::lemma_u32_size((i - 2) as nat);
        assert(size(h) == 4) by {
            reveal_with_fuel(size, 3);
        }
    }
}

/// An event read from a record holds the record's numbers, little-endian,
/// under the flag word of the two bytes at offset 0: its node and position
/// are present exactly where bit `AT_NODE` is set, and are then the node
/// that the two-byte number at offset 2 refers to and the numbers at
/// offsets 4 to 12; its screen position, world radius and screen radius are
/// present exactly where bits `SCREEN_POS`, `WORLD_RADIUS` and
/// `SCREEN_RADIUS` are set, and are then the numbers at offsets 16 and 28,
/// 40 and 44, and 48; its wave the numbers at offsets 60, 72 and 84; and its
/// run time the number at offset 96.
#[verifier::rlimit(40)]
pub proof fn lemma_read_bytes(ad: AnimDefV, s: Seq<u8>)
    requires
        parse(ad, s) is Some,
    ensures
        ({
            let v = parse(ad, s).unwrap();
            let fl = crate::record::le16_at(s, 0) as u32;
            &&& (v.at_node is Some) == bit(fl, AT_NODE)
            &&& v.at_node matches Some(a) ==> name_at(ad.nodes, crate::record::le16_at(s, 2) as int) == Some(a.name) && a.pos == Vec3 { x: crate::record::le32_at(s, 4), y: crate::record::le32_at(s, 8), z: crate::record::le32_at(s, 12) }
            &&& (v.screen_pos is Some) == bit(fl, SCREEN_POS)
            &&& v.screen_pos matches Some(p) ==> p.x == FloatFromTo { from: crate::record::le32_at(s, 16), to: crate::record::le32_at(s, 20), delta: crate::record::le32_at(s, 24) } && p.y == FloatFromTo { from: crate::record::le32_at(s, 28), to: crate::record::le32_at(s, 32), delta: crate::record::le32_at(s, 36) }
            &&& (v.world_radius is Some) == bit(fl, WORLD_RADIUS)
            &&& v.world_radius matches Some(w) ==> w.from == crate::record::le32_at(s, 40) && w.to == crate::record::le32_at(s, 44)
            &&& (v.screen_radius is Some) == bit(fl, SCREEN_RADIUS)
            &&& v.screen_radius matches Some(r) ==> r == FloatFromTo { from: crate::record::le32_at(s, 48), to: crate::record::le32_at(s, 52), delta: crate::record::le32_at(s, 56) }
            &&& v.csin.x == FloatFromTo { from: crate::record::le32_at(s, 60), to: crate::record::le32_at(s, 64), delta: crate::record::le32_at(s, 68) } && v.csin.y == FloatFromTo { from: crate::record::le32_at(s, 72), to: crate::record::le32_at(s, 76), delta: crate::record::le32_at(s, 80) } && v.csin.z == FloatFromTo { from: crate::record::le32_at(s, 84), to: crate::record::le32_at(s, 88), delta: crate::record::le32_at(s, 92) }
            &&& v.run_time == crate::record::le32_at(s, 96)
        }),
{
    lemma_layout_size();
    lemma_offset(0);
    crate::record::lemma_numbers_at(layout(), s, 0);
    lemma_offset(1);
    crate::record::lemma_numbers_at(layout(), s, 1);
    lemma_offset(2);
    crate::record::lemma_numbers_at(layout(), s, 2);
    lemma_offset(3);
    crate::record::lemma_numbers_at(layout(), s, 3);
    lemma_offset(4);
    crate::record::lemma_numbers_at(layout(), s, 4);
    lemma_offset(5);
    crate::record::lemma_numbers_at(layout(), s, 5);
    lemma_offset(6);
    crate::record::lemma_numbers_at(layout(), s, 6);
    lemma_offset(7);
    crate::record::lemma_numbers_at(layout(), s, 7);
    lemma_offset(8);
    crate::record::lemma_numbers_at(layout(), s, 8);
    lemma_offset(9);
    crate::record::lemma_numbers_at(layout(), s, 9);
    lemma_offset(10);
    crate::record::lemma_numbers_at(layout(), s, 10);
    lemma_offset(11);
    crate::record::lemma_numbers_at(layout(), s, 11);
    lemma_offset(12);
    crate::record::lemma_numbers_at(layout(), s, 12);
    lemma_offset(13);
    crate::record::lemma_numbers_at(layout(), s, 13);
    lemma_offset(14);
    crate::record::lemma_numbers_at(layout(), s, 14);
    lemma_offset(15);
    crate::record::lemma_numbers_at(layout(), s, 15);
    lemma_offset(16);
    crate::record::lemma_numbers_at(layout(), s, 16);
    lemma_offset(17);
    crate::record::lemma_numbers_at(layout(), s, 17);
    lemma_offset(18);
    crate::record::lemma_numbers_at(layout(), s, 18);
    lemma_offset(19);
    crate::record::lemma_numbers_at(layout(), s, 19);
    lemma_offset(20);
    crate::record::lemma_numbers_at(layout(), s, 20);
    lemma_offset(21);
    crate::record::lemma_numbers_at(layout(), s, 21);
    lemma_offset(22);
    crate::record::lemma_numbers_at(layout(), s, 22);
    lemma_offset(23);
    crate::record::lemma_numbers_at(layout(), s, 23);
    lemma_offset(24);
    crate::record::lemma_numbers_at(layout(), s, 24);
    lemma_offset(25);
    crate::record::lemma_numbers_at(layout(), s, 25);
}

/// The record written for an event holds, little-endian, a flag word at
/// offset 0 whose bits `AT_NODE`, `SCREEN_POS`, `WORLD_RADIUS` and
/// `SCREEN_RADIUS` are set exactly where those parts are present, and the
/// parts at the offsets that `lemma_read_bytes` gives.
#[verifier::rlimit(40)]
pub proof fn lemma_written_bytes(ad: AnimDefV, v: FbfxCsinwaveFromTo<Seq<u8>>)
    requires
        serialize(ad, v) is Some,
    ensures
        ({
            let b = serialize(ad, v).unwrap();
            let fl = crate::record::le16_at(b, 0) as u32;
            &&& bit(fl, AT_NODE) == (v.at_node is Some)
            &&& v.at_node matches Some(a) ==> name_at(ad.nodes, crate::record::le16_at(b, 2) as int) == Some(a.name) && a.pos == Vec3 { x: crate::record::le32_at(b, 4), y: crate::record::le32_at(b, 8), z: crate::record::le32_at(b, 12) }
            &&& bit(fl, SCREEN_POS) == (v.screen_pos is Some)
            &&& v.screen_pos matches Some(p) ==> p.x == FloatFromTo { from: crate::record::le32_at(b, 16), to: crate::record::le32_at(b, 20), delta: crate::record::le32_at(b, 24) } && p.y == FloatFromTo { from: crate::record::le32_at(b, 28), to: crate::record::le32_at(b, 32), delta: crate::record::le32_at(b, 36) }
            &&& bit(fl, WORLD_RADIUS) == (v.world_radius is Some)
            &&& v.world_radius matches Some(w) ==> w.from == crate::record::le32_at(b, 40) && w.to == crate::record::le32_at(b, 44)
            &&& bit(fl, SCREEN_RADIUS) == (v.screen_radius is Some)
            &&& v.screen_radius matches Some(r) ==> r == FloatFromTo { from: crate::record::le32_at(b, 48), to: crate::record::le32_at(b, 52), delta: crate::record::le32_at(b, 56) }
            &&& v.csin.x == FloatFromTo { from: crate::record::le32_at(b, 60), to: crate::record::le32_at(b, 64), delta: crate::record::le32_at(b, 68) } && v.csin.y == FloatFromTo { from: crate::record::le32_at(b, 72), to: crate::record::le32_at(b, 76), delta: crate::record::le32_at(b, 80) } && v.csin.z == FloatFromTo { from: crate::record::le32_at(b, 84), to: crate::record::le32_at(b, 88), delta: crate::record::le32_at(b, 92) }
            &&& v.run_time == crate::record::le32_at(b, 96)
        }),
{
    lemma_fields_shape(ad, v);
    let g = to_fields(ad, v).unwrap();
    if let Some(a) = v.at_node {
        crate::anim_def::lemma_name_at_index_of(ad.nodes, a.name);
    }
    lemma_word4(
        v.screen_pos is Some,
        v.at_node is Some,
        v.screen_radius is Some,
        v.world_radius is Some,
    );
    lemma_offset(0);
    crate::record::lemma_numbers_written(g, layout(), 0);
    lemma_offset(1);
    crate::record::lemma_numbers_written(g, layout(), 1);
    lemma_offset(2);
    crate::record::lemma_numbers_written(g, layout(), 2);
    lemma_offset(3);
    crate::record::lemma_numbers_written(g, layout(), 3);
    lemma_offset(4);
    crate::record::lemma_numbers_written(g, layout(), 4);
    lemma_offset(5);
    crate::record::lemma_numbers_written(g, layout(), 5);
    lemma_offset(6);
    crate::record::lemma_numbers_written(g, layout(), 6);
    lemma_offset(7);
    crate::record::lemma_numbers_written(g, layout(), 7);
    lemma_offset(8);
    crate::record::lemma_numbers_written(g, layout(), 8);
    lemma_offset(9);
    crate::record::lemma_numbers_written(g, layout(), 9);
    lemma_offset(10);
    crate::record::lemma_numbers_written(g, layout(), 10);
    lemma_offset(11);
    crate::record::lemma_numbers_written(g, layout(), 11);
    lemma_offset(12);
    crate::record::lemma_numbers_written(g, layout(), 12);
    lemma_offset(13);
    crate::record::lemma_numbers_written(g, layout(), 13);
    lemma_offset(14);
    crate::record::lemma_numbers_written(g, layout(), 14);
    lemma_offset(15);
    crate::record::lemma_numbers_written(g, layout(), 15);
    lemma_offset(16);
    crate::record::lemma_numbers_written(g, layout(), 16);
    lemma_offset(17);
    crate::record::lemma_numbers_written(g, layout(), 17);
    lemma_offset(18);
    crate::record::lemma_numbers_written(g, layout(), 18);
    lemma_offset(19);
    crate::record::lemma_numbers_written(g, layout(), 19);
    lemma_offset(20);
    crate::record::lemma_numbers_written(g, layout(), 20);
    lemma_offset(21);
    crate::record::lemma_numbers_written(g, layout(), 21);
    lemma_offset(22);
    crate::record::lemma_numbers_written(g, layout(), 22);
    lemma_offset(23);
    crate::record::lemma_numbers_written(g, layout(), 23);
    lemma_offset(24);
    crate::record::lemma_numbers_written(g, layout(), 24);
    lemma_offset(25);
    crate::record::lemma_numbers_written(g, layout(), 25);
}

} // verus!
