//! `LIGHT_STATE` (4) in Pirate's Moon and Recoil: sets whether a light is
//! active, its type, and some of its flags, position, orientation, range,
//! colours and intensities.
//!
//! The Pirate's Moon record has 140 bytes: the light's name (32 bytes) and
//! 27 four-byte values: light index, flags, active state, type, the six
//! booleans directional, saturated, subdivide, lightmap, static and
//! bicolored, node index, translation, orientation, range, colour, ambient
//! colour, ambient and diffuse intensity. The Recoil record has 112 bytes:
//! the same without the last four booleans and the ambient colour, which
//! Recoil's lights do not have.
//!
//! The type is kept as the four-byte code the record stores; which codes
//! name a type of light is not checked.
use vstd::prelude::*;
use crate::anim_def::{
    index_of, lemma_index_of_name_at, lemma_name_reread,
    lemma_node_or_input_exact, lemma_node_or_input_reread, name_at, node_or_input,
    node_or_input_index, AnimDef, AnimDefV,
};
use crate::error::Error;
use crate::flags::{bit, bit_exec};
use crate::float;
use crate::model::{
    bool32_exec, bool_int, bool_of, color_is_black, color_is_black_exec, color_is_valid,
    color_is_valid_exec, color_no_neg_zero, range_is_zero, range_is_zero_exec, range_no_neg_zero,
    vec3_is_zero, vec3_is_zero_exec, vec3_no_neg_zero, AtNode, Color, Range, Translate, Vec3,
};
use crate::record::{
    conforms, conforms_all, decode, decode_record, encode, encode_record, fields_view, get_bytes,
    get_u32, lemma_conforming_fields, lemma_decode_conforms, lemma_decode_encode,
    lemma_encode_decode, lemma_encode_size, lemma_size_append,
    lemma_u32_size, size, w32, wbytes, FieldV, Fld, Kind,
};
use crate::text::{bytes_eq, lemma_pad_unpad, lemma_unpad_pad, pad, pad_exec, unpad, unpad_exec};

verus! {

/// A `LIGHT_STATE` event: each part is set where present.
#[derive(Debug)]
pub struct LightState<N> {
    pub name: N,
    pub active_state: bool,
    /// The stored code of the light's type.
    pub type_: u32,
    pub directional: Option<bool>,
    pub saturated: Option<bool>,
    pub subdivide: Option<bool>,
    pub lightmap: Option<bool>,
    pub static_: Option<bool>,
    pub bicolored: Option<bool>,
    pub translate: Option<Translate<N>>,
    pub orientation: Option<Vec3>,
    pub range: Option<Range>,
    pub color: Option<Color>,
    pub ambient_color: Option<Color>,
    /// An `f32` in `0.0..=1.0`.
    pub ambient: Option<u32>,
    /// An `f32` in `0.0..=1.0`.
    pub diffuse: Option<u32>,
}

impl DeepView for LightState<Vec<u8>> {
    type V = LightState<Seq<u8>>;

    open spec fn deep_view(&self) -> LightState<Seq<u8>> {
        LightState {
            name: self.name@,
            active_state: self.active_state,
            type_: self.type_,
            directional: self.directional,
            saturated: self.saturated,
            subdivide: self.subdivide,
            lightmap: self.lightmap,
            static_: self.static_,
            bicolored: self.bicolored,
            translate: match &self.translate {
                Some(t) => Some(t.deep_view()),
                None => None,
            },
            orientation: self.orientation,
            range: self.range,
            color: self.color,
            ambient_color: self.ambient_color,
            ambient: self.ambient,
            diffuse: self.diffuse,
        }
    }
}

/// Size of the Pirate's Moon record.
pub const PM_SIZE: u32 = 140;

/// Size of the Recoil record.
pub const RC_SIZE: u32 = 112;

/// The node index that stands for the input node (`-200`).
pub const INPUT: u32 = 0xFFFF_FF38;

/// Flag bits.
pub const TRANSLATE_ABS: u32 = 0;

pub const AT_NODE: u32 = 1;

pub const ORIENTATION: u32 = 2;

pub const RANGE: u32 = 3;

pub const COLOR: u32 = 4;

pub const AMBIENT: u32 = 5;

pub const DIFFUSE: u32 = 6;

pub const DIRECTIONAL: u32 = 7;

pub const SATURATED: u32 = 8;

pub const SUBDIVIDE: u32 = 9;

pub const STATIC: u32 = 10;

pub const AMBIENT_COLOR: u32 = 11;

pub const BICOLORED: u32 = 12;

pub const LIGHTMAP: u32 = 13;

/// Number of four-byte values of a record.
pub open spec fn count(pm: bool) -> nat {
    if pm {
        27
    } else {
        20
    }
}

/// Size of a record.
pub open spec fn record_size(pm: bool) -> nat {
    if pm {
        PM_SIZE as nat
    } else {
        RC_SIZE as nat
    }
}

/// Fields: the name, then the four-byte values.
pub open spec fn layout(pm: bool) -> Seq<Kind> {
    seq![Kind::Bytes(32)] + Seq::new(count(pm), |i: int| Kind::U32)
}

proof fn lemma_layout(pm: bool)
    ensures
        size(layout(pm)) == record_size(pm),
        layout(pm).len() == count(pm) + 1,
        layout(pm)[0] == Kind::Bytes(32),
        forall|i: int| 1 <= i <= count(pm) ==> #[trigger] layout(pm)[i] == Kind::U32,
{
    lemma_size_append(seq![Kind::Bytes(32)], Seq::new(count(pm), |i: int| Kind::U32));
    lemma_u32_size(count(pm));
    reveal_with_fuel(size, 2);
}

fn layout_exec(pm: bool) -> (r: Vec<Kind>)
    ensures
        r@ == layout(pm),
{
    let n: usize = if pm {
        27
    } else {
        20
    };
    let mut r = vec![Kind::Bytes(32)];
    let mut i: usize = 0;
    while i < n
        invariant
            n == count(pm),
            0 <= i <= n,
            r@ == seq![Kind::Bytes(32)] + Seq::new(i as nat, |k: int| Kind::U32),
        decreases n - i,
    {
        r.push(Kind::U32);
        i = i + 1;
        proof {
            assert(r@ =~= seq![Kind::Bytes(32)] + Seq::new(i as nat, |k: int| Kind::U32));
        }
    }
    r
}

/// The position in a record of value `k` of the Pirate's Moon record, if
/// the record has that value: Recoil's record lacks the values 7 to 10 and
/// 23 to 25.
pub open spec fn pos(pm: bool, k: int) -> Option<int> {
    if pm || k <= 6 {
        Some(k)
    } else if 11 <= k <= 22 {
        Some(k - 4)
    } else if k == 26 || k == 27 {
        Some(k - 7)
    } else {
        None
    }
}

/// Value `k` of a record, zero where the record lacks it.
#[verifier::opaque]
pub open spec fn val(f: Seq<FieldV>, pm: bool, k: int) -> u32 {
    match pos(pm, k) {
        Some(p) => w32(f, p),
        None => 0,
    }
}

/// The vector of values `k` to `k + 2`.
pub open spec fn vec_val(f: Seq<FieldV>, pm: bool, k: int) -> Vec3 {
    Vec3 { x: val(f, pm, k), y: val(f, pm, k + 1), z: val(f, pm, k + 2) }
}

/// The range of values `k` and `k + 1`.
pub open spec fn range_val(f: Seq<FieldV>, pm: bool, k: int) -> Range {
    Range { min: val(f, pm, k), max: val(f, pm, k + 1) }
}

/// The colour of values `k` to `k + 2`.
pub open spec fn color_val(f: Seq<FieldV>, pm: bool, k: int) -> Color {
    Color { r: val(f, pm, k), g: val(f, pm, k + 1), b: val(f, pm, k + 2) }
}

/// A boolean with a flag: present and `0` or `1` where the flag is set,
/// otherwise stored as `0`.
pub open spec fn flag_bool(set: bool, x: u32) -> Option<Option<bool>> {
    if set {
        match bool_of(x as int) {
            Some(b) => Some(Some(b)),
            None => None,
        }
    } else if x == 0 {
        Some(None)
    } else {
        None
    }
}

/// A vector with a flag: present where it is set, otherwise stored as zero.
pub open spec fn opt_vec(set: bool, v: Vec3) -> Option<Option<Vec3>> {
    if set {
        Some(Some(v))
    } else if vec3_is_zero(v) {
        Some(None)
    } else {
        None
    }
}

/// A range with a flag: where it is set, a range that starts at or above
/// zero and does not fall; otherwise stored as zero.
pub open spec fn opt_range(set: bool, r: Range) -> Option<Option<Range>> {
    if set {
        if float::le(float::ZERO, r.min) && float::le(r.min, r.max) {
            Some(Some(r))
        } else {
            None
        }
    } else if range_is_zero(r) {
        Some(None)
    } else {
        None
    }
}

/// A colour with a flag: where it is set, a colour with components in
/// `0.0..=1.0`; otherwise stored as black.
pub open spec fn opt_color(set: bool, c: Color) -> Option<Option<Color>> {
    if set {
        if color_is_valid(c) {
            Some(Some(c))
        } else {
            None
        }
    } else if color_is_black(c) {
        Some(None)
    } else {
        None
    }
}

/// An intensity with a flag: where it is set, in `0.0..=1.0`; otherwise
/// stored as zero.
pub open spec fn opt_unit(set: bool, x: u32) -> Option<Option<u32>> {
    if set {
        if float::in_range(float::ZERO, x, float::ONE) {
            Some(Some(x))
        } else {
            None
        }
    } else if float::is_zero(x) {
        Some(None)
    } else {
        None
    }
}

/// The translation of the flags, node index and stored position: at a node
/// (the input node or a known one), absolute with node index zero, or none
/// with node index zero and a zero position.
pub open spec fn translate_of(ad: AnimDefV, fl: u32, node: u32, p: Vec3) -> Option<
    Option<Translate<Seq<u8>>>,
> {
    if bit(fl, AT_NODE) {
        match node_or_input(ad, node as int, INPUT as int) {
            Some(n) => Some(Some(Translate::AtNode(AtNode { name: n, pos: p }))),
            None => None,
        }
    } else if node != 0 {
        None
    } else if bit(fl, TRANSLATE_ABS) {
        Some(Some(Translate::Absolute(p)))
    } else if vec3_is_zero(p) {
        Some(None)
    } else {
        None
    }
}

/// The booleans of a record (directional, saturated, subdivide, lightmap,
/// static, bicolored), if they are stored as their flags say.
#[verifier::opaque]
pub open spec fn bools_of(f: Seq<FieldV>, pm: bool, fl: u32) -> Option<
    (Option<bool>, Option<bool>, Option<bool>, Option<bool>, Option<bool>, Option<bool>),
> {
    match (
        flag_bool(bit(fl, DIRECTIONAL), val(f, pm, 5)),
        flag_bool(bit(fl, SATURATED), val(f, pm, 6)),
        flag_bool(bit(fl, SUBDIVIDE), val(f, pm, 7)),
        flag_bool(bit(fl, LIGHTMAP), val(f, pm, 8)),
        flag_bool(bit(fl, STATIC), val(f, pm, 9)),
        flag_bool(bit(fl, BICOLORED), val(f, pm, 10)),
    ) {
        (Some(a), Some(b), Some(c), Some(d), Some(e), Some(g)) => Some((a, b, c, d, e, g)),
        _ => None,
    }
}

/// The range, colour, ambient colour, ambient and diffuse intensity of a
/// record, if they are stored as their flags say.
#[verifier::opaque]
pub open spec fn tail_of(f: Seq<FieldV>, pm: bool, fl: u32) -> Option<
    (Option<Range>, Option<Color>, Option<Color>, Option<u32>, Option<u32>),
> {
    match (
        opt_range(bit(fl, RANGE), range_val(f, pm, 18)),
        opt_color(bit(fl, COLOR), color_val(f, pm, 20)),
        opt_color(bit(fl, AMBIENT_COLOR), color_val(f, pm, 23)),
        opt_unit(bit(fl, AMBIENT), val(f, pm, 26)),
        opt_unit(bit(fl, DIFFUSE), val(f, pm, 27)),
    ) {
        (Some(a), Some(b), Some(c), Some(d), Some(e)) => Some((a, b, c, d, e)),
        _ => None,
    }
}

/// The event that the fields of a record describe, if they describe one:
/// only the known flags (and none for an inactive light), the name of the
/// light that the index refers to, and each part as its flag says.
pub open spec fn from_fields(ad: AnimDefV, f: Seq<FieldV>, pm: bool) -> Option<
    LightState<Seq<u8>>,
> {
    let fl = val(f, pm, 2);
    if fl >= (if pm {
        0x4000u32
    } else {
        0x200u32
    }) {
        None
    } else {
        match (
            unpad(wbytes(f, 0)),
            name_at(ad.lights, val(f, pm, 1) as int),
            bool_of(val(f, pm, 3) as int),
            bools_of(f, pm, fl),
            translate_of(ad, fl, val(f, pm, 11), vec_val(f, pm, 12)),
            opt_vec(bit(fl, ORIENTATION), vec_val(f, pm, 15)),
        ) {
            (
                Some(name),
                Some(expected),
                Some(active_state),
                Some(bs),
                Some(translate),
                Some(orientation),
            ) => if name != expected || (!active_state && fl != 0) {
                None
            } else {
                match tail_of(f, pm, fl) {
                    Some(t) => Some(
                        LightState {
                            name,
                            active_state,
                            type_: val(f, pm, 4),
                            directional: bs.0,
                            saturated: bs.1,
                            subdivide: bs.2,
                            lightmap: bs.3,
                            static_: bs.4,
                            bicolored: bs.5,
                            translate,
                            orientation,
                            range: t.0,
                            color: t.1,
                            ambient_color: t.2,
                            ambient: t.3,
                            diffuse: t.4,
                        },
                    ),
                    None => None,
                }
            },
            _ => None,
        }
    }
}

/// The flag word with bits 0 to 13 set as given.
pub open spec fn word(
    b0: bool,
    b1: bool,
    b2: bool,
    b3: bool,
    b4: bool,
    b5: bool,
    b6: bool,
    b7: bool,
    b8: bool,
    b9: bool,
    b10: bool,
    b11: bool,
    b12: bool,
    b13: bool,
) -> u32 {
    (if b0 { 1u32 } else { 0u32 }) | (if b1 { 2u32 } else { 0u32 }) | (if b2 { 4u32 } else { 0u32 })
        | (if b3 { 8u32 } else { 0u32 }) | (if b4 { 0x10u32 } else { 0u32 }) | (if b5 {
        0x20u32
    } else {
        0u32
    }) | (if b6 { 0x40u32 } else { 0u32 }) | (if b7 { 0x80u32 } else { 0u32 }) | (if b8 {
        0x100u32
    } else {
        0u32
    }) | (if b9 { 0x200u32 } else { 0u32 }) | (if b10 { 0x400u32 } else { 0u32 }) | (if b11 {
        0x800u32
    } else {
        0u32
    }) | (if b12 { 0x1000u32 } else { 0u32 }) | (if b13 { 0x2000u32 } else { 0u32 })
}

/// The bits of a flag word are the ones it was built with, and it has no
/// other.
pub proof fn lemma_word(
    b0: bool,
    b1: bool,
    b2: bool,
    b3: bool,
    b4: bool,
    b5: bool,
    b6: bool,
    b7: bool,
    b8: bool,
    b9: bool,
    b10: bool,
    b11: bool,
    b12: bool,
    b13: bool,
)
    by (bit_vector)
    ensures
        ({
            let w = word(b0, b1, b2, b3, b4, b5, b6, b7, b8, b9, b10, b11, b12, b13);
            &&& bit(w, 0) == b0
            &&& bit(w, 1) == b1
            &&& bit(w, 2) == b2
            &&& bit(w, 3) == b3
            &&& bit(w, 4) == b4
            &&& bit(w, 5) == b5
            &&& bit(w, 6) == b6
            &&& bit(w, 7) == b7
            &&& bit(w, 8) == b8
            &&& bit(w, 9) == b9
            &&& bit(w, 10) == b10
            &&& bit(w, 11) == b11
            &&& bit(w, 12) == b12
            &&& bit(w, 13) == b13
            &&& w < 0x4000
            &&& (!b9 && !b10 && !b11 && !b12 && !b13) ==> w < 0x200
            &&& (w == 0) == (!b0 && !b1 && !b2 && !b3 && !b4 && !b5 && !b6 && !b7 && !b8 && !b9
                && !b10 && !b11 && !b12 && !b13)
        }),
{
}

/// The flag word of an event in the record of Pirate's Moon (`pm`) or
/// Recoil, which has no flags for the parts it lacks.
pub open spec fn flags_of(v: LightState<Seq<u8>>, pm: bool) -> u32 {
    word(
        v.translate matches Some(Translate::Absolute(_)),
        v.translate matches Some(Translate::AtNode(_)),
        v.orientation is Some,
        v.range is Some,
        v.color is Some,
        v.ambient is Some,
        v.diffuse is Some,
        v.directional is Some,
        v.saturated is Some,
        pm && v.subdivide is Some,
        pm && v.static_ is Some,
        pm && v.ambient_color is Some,
        pm && v.bicolored is Some,
        pm && v.lightmap is Some,
    )
}

/// The stored value of an optional boolean.
pub open spec fn sb(o: Option<bool>) -> u32 {
    match o {
        Some(b) => bool_int(b) as u32,
        None => 0,
    }
}

/// The stored value of an optional `f32`.
pub open spec fn sf(o: Option<u32>) -> u32 {
    match o {
        Some(x) => x,
        None => 0,
    }
}

/// The stored value of an optional vector.
pub open spec fn sv(o: Option<Vec3>) -> Vec3 {
    match o {
        Some(x) => x,
        None => Vec3 { x: 0, y: 0, z: 0 },
    }
}

/// The stored value of an optional range.
pub open spec fn sr(o: Option<Range>) -> Range {
    match o {
        Some(x) => x,
        None => Range { min: 0, max: 0 },
    }
}

/// The stored value of an optional colour.
pub open spec fn sc(o: Option<Color>) -> Color {
    match o {
        Some(x) => x,
        None => Color { r: 0, g: 0, b: 0 },
    }
}

/// The stored node index of a translation, if its node is known.
pub open spec fn node_index_of(ad: AnimDefV, t: Option<Translate<Seq<u8>>>) -> Option<int> {
    match t {
        Some(Translate::AtNode(a)) => node_or_input_index(ad, a.name, INPUT as int),
        _ => Some(0),
    }
}

/// The stored position of a translation.
pub open spec fn position_of(t: Option<Translate<Seq<u8>>>) -> Vec3 {
    match t {
        Some(Translate::AtNode(a)) => a.pos,
        Some(Translate::Absolute(p)) => p,
        None => Vec3 { x: 0, y: 0, z: 0 },
    }
}

/// The fields of the record of an event, if it can be written: its name can
/// be padded, and its light and node are known. Recoil's record leaves out
/// the parts Recoil does not have.
pub open spec fn to_fields(ad: AnimDefV, v: LightState<Seq<u8>>, pm: bool) -> Option<
    Seq<FieldV>,
> {
    let fl = flags_of(v, pm);
    let p = position_of(v.translate);
    let o = sv(v.orientation);
    let r = sr(v.range);
    let c = sc(v.color);
    let a = sc(v.ambient_color);
    match (pad(v.name, 32), index_of(ad.lights, v.name), node_index_of(ad, v.translate)) {
        (Some(nb), Some(li), Some(ni)) => Some(
            if pm {
                seq![
                    FieldV::Bytes(nb),
                    FieldV::U32(li as u32),
                    FieldV::U32(fl),
                    FieldV::U32(bool_int(v.active_state) as u32),
                    FieldV::U32(v.type_),
                    FieldV::U32(sb(v.directional)),
                    FieldV::U32(sb(v.saturated)),
                    FieldV::U32(sb(v.subdivide)),
                    FieldV::U32(sb(v.lightmap)),
                    FieldV::U32(sb(v.static_)),
                    FieldV::U32(sb(v.bicolored)),
                    FieldV::U32(ni as u32),
                    FieldV::U32(p.x),
                    FieldV::U32(p.y),
                    FieldV::U32(p.z),
                    FieldV::U32(o.x),
                    FieldV::U32(o.y),
                    FieldV::U32(o.z),
                    FieldV::U32(r.min),
                    FieldV::U32(r.max),
                    FieldV::U32(c.r),
                    FieldV::U32(c.g),
                    FieldV::U32(c.b),
                    FieldV::U32(a.r),
                    FieldV::U32(a.g),
                    FieldV::U32(a.b),
                    FieldV::U32(sf(v.ambient)),
                    FieldV::U32(sf(v.diffuse)),
                ]
            } else {
                seq![
                    FieldV::Bytes(nb),
                    FieldV::U32(li as u32),
                    FieldV::U32(fl),
                    FieldV::U32(bool_int(v.active_state) as u32),
                    FieldV::U32(v.type_),
                    FieldV::U32(sb(v.directional)),
                    FieldV::U32(sb(v.saturated)),
                    FieldV::U32(ni as u32),
                    FieldV::U32(p.x),
                    FieldV::U32(p.y),
                    FieldV::U32(p.z),
                    FieldV::U32(o.x),
                    FieldV::U32(o.y),
                    FieldV::U32(o.z),
                    FieldV::U32(r.min),
                    FieldV::U32(r.max),
                    FieldV::U32(c.r),
                    FieldV::U32(c.g),
                    FieldV::U32(c.b),
                    FieldV::U32(sf(v.ambient)),
                    FieldV::U32(sf(v.diffuse)),
                ]
            },
        ),
        _ => None,
    }
}

/// The event that a record of Pirate's Moon (`pm`) or Recoil holds, if it
/// holds one.
pub open spec fn parse_with(ad: AnimDefV, s: Seq<u8>, pm: bool) -> Option<LightState<Seq<u8>>> {
    if s.len() == record_size(pm) {
        from_fields(ad, decode(layout(pm), s), pm)
    } else {
        None
    }
}

/// The record of an event in Pirate's Moon (`pm`) or Recoil, if it can be
/// written.
pub open spec fn serialize_with(ad: AnimDefV, v: LightState<Seq<u8>>, pm: bool) -> Option<
    Seq<u8>,
> {
    match to_fields(ad, v, pm) {
        Some(f) => Some(encode(f)),
        None => None,
    }
}

/// The event that a Pirate's Moon record holds, if it holds one.
pub open spec fn parse_pm(ad: AnimDefV, s: Seq<u8>) -> Option<LightState<Seq<u8>>> {
    parse_with(ad, s, true)
}

/// The Pirate's Moon record of an event, if it can be written.
pub open spec fn serialize_pm(ad: AnimDefV, v: LightState<Seq<u8>>) -> Option<Seq<u8>> {
    serialize_with(ad, v, true)
}

/// The event that a Recoil record holds, if it holds one.
pub open spec fn parse_rc(ad: AnimDefV, s: Seq<u8>) -> Option<LightState<Seq<u8>>> {
    parse_with(ad, s, false)
}

/// The Recoil record of an event, if it can be written.
pub open spec fn serialize_rc(ad: AnimDefV, v: LightState<Seq<u8>>) -> Option<Seq<u8>> {
    serialize_with(ad, v, false)
}

/// The flags below `0x200` have none of the bits of the parts Recoil lacks,
/// and zero has no bit at all.
proof fn lemma_flag_bits(x: u32)
    by (bit_vector)
    ensures
        x < 0x200 ==> !bit(x, 9) && !bit(x, 10) && !bit(x, 11) && !bit(x, 12) && !bit(x, 13),
        x == 0 ==> !bit(x, 0) && !bit(x, 1) && !bit(x, 2) && !bit(x, 3) && !bit(x, 4) && !bit(
            x,
            5,
        ) && !bit(x, 6) && !bit(x, 7) && !bit(x, 8),
{
}

fn pos_exec(pm: bool, k: usize) -> (r: Option<usize>)
    requires
        k < 28,
    ensures
        match pos(pm, k as int) {
            Some(p) => r == Some(p as usize),
            None => r is None,
        },
{
    if pm || k <= 6 {
        Some(k)
    } else if 11 <= k && k <= 22 {
        Some(k - 4)
    } else if k == 26 || k == 27 {
        Some(k - 7)
    } else {
        None
    }
}

fn val_exec(f: &Vec<Fld>, pm: bool, k: usize) -> (r: u32)
    requires
        1 <= k < 28,
        f@.len() == count(pm) + 1,
        forall|i: int| 1 <= i <= count(pm) ==> (#[trigger] fields_view(f@)[i]) is U32,
    ensures
        r == val(fields_view(f@), pm, k as int),
{
    reveal(val);
    match pos_exec(pm, k) {
        Some(p) => {
            assert(fields_view(f@)[p as int] is U32);
            get_u32(f, p)
        },
        None => 0,
    }
}

fn flag_bool_exec(set: bool, x: u32) -> (r: Result<Option<bool>, Error>)
    ensures
        match flag_bool(set, x) {
            Some(o) => r == Ok::<Option<bool>, Error>(o),
            None => r == Err::<Option<bool>, Error>(Error::Invalid),
        },
{
    if set {
        match bool32_exec(x) {
            Some(b) => Ok(Some(b)),
            None => Err(Error::Invalid),
        }
    } else if x == 0 {
        Ok(None)
    } else {
        Err(Error::Invalid)
    }
}

fn opt_vec_exec(set: bool, v: Vec3) -> (r: Result<Option<Vec3>, Error>)
    ensures
        match opt_vec(set, v) {
            Some(o) => r == Ok::<Option<Vec3>, Error>(o),
            None => r == Err::<Option<Vec3>, Error>(Error::Invalid),
        },
{
    if set {
        Ok(Some(v))
    } else if vec3_is_zero_exec(v) {
        Ok(None)
    } else {
        Err(Error::Invalid)
    }
}

fn opt_range_exec(set: bool, r: Range) -> (o: Result<Option<Range>, Error>)
    ensures
        match opt_range(set, r) {
            Some(x) => o == Ok::<Option<Range>, Error>(x),
            None => o == Err::<Option<Range>, Error>(Error::Invalid),
        },
{
    if set {
        if float::f32_le(float::ZERO, r.min) && float::f32_le(r.min, r.max) {
            Ok(Some(r))
        } else {
            Err(Error::Invalid)
        }
    } else if range_is_zero_exec(r) {
        Ok(None)
    } else {
        Err(Error::Invalid)
    }
}

fn opt_color_exec(set: bool, c: Color) -> (r: Result<Option<Color>, Error>)
    ensures
        match opt_color(set, c) {
            Some(o) => r == Ok::<Option<Color>, Error>(o),
            None => r == Err::<Option<Color>, Error>(Error::Invalid),
        },
{
    if set {
        if color_is_valid_exec(c) {
            Ok(Some(c))
        } else {
            Err(Error::Invalid)
        }
    } else if color_is_black_exec(c) {
        Ok(None)
    } else {
        Err(Error::Invalid)
    }
}

fn opt_unit_exec(set: bool, x: u32) -> (r: Result<Option<u32>, Error>)
    ensures
        match opt_unit(set, x) {
            Some(o) => r == Ok::<Option<u32>, Error>(o),
            None => r == Err::<Option<u32>, Error>(Error::Invalid),
        },
{
    if set {
        if float::f32_in_range(float::ZERO, x, float::ONE) {
            Ok(Some(x))
        } else {
            Err(Error::Invalid)
        }
    } else if float::f32_is_zero(x) {
        Ok(None)
    } else {
        Err(Error::Invalid)
    }
}

fn translate_exec(ad: &AnimDef, fl: u32, node: u32, p: Vec3) -> (r: Result<
    Option<Translate<Vec<u8>>>,
    Error,
>)
    ensures
        match translate_of(ad@, fl, node, p) {
            Some(o) => r matches Ok(x) && o == (match x {
                Some(t) => Some(t.deep_view()),
                None => None,
            }),
            None => r == Err::<Option<Translate<Vec<u8>>>, Error>(Error::Invalid),
        },
{
    if bit_exec(fl, AT_NODE) {
        let n = ad.node_or_input_from_index(node, INPUT)?;
        Ok(Some(Translate::AtNode(AtNode { name: n, pos: p })))
    } else if node != 0 {
        Err(Error::Invalid)
    } else if bit_exec(fl, TRANSLATE_ABS) {
        Ok(Some(Translate::Absolute(p)))
    } else if vec3_is_zero_exec(p) {
        Ok(None)
    } else {
        Err(Error::Invalid)
    }
}

fn read_bools(f: &Vec<Fld>, pm: bool, fl: u32) -> (r: Result<
    (Option<bool>, Option<bool>, Option<bool>, Option<bool>, Option<bool>, Option<bool>),
    Error,
>)
    requires
        f@.len() == count(pm) + 1,
        forall|i: int| 1 <= i <= count(pm) ==> (#[trigger] fields_view(f@)[i]) is U32,
    ensures
        match bools_of(fields_view(f@), pm, fl) {
            Some(b) => r == Ok::<_, Error>(b),
            None => r == Err::<
                (Option<bool>, Option<bool>, Option<bool>, Option<bool>, Option<bool>, Option<bool>),
                Error,
            >(Error::Invalid),
        },
{
    reveal(bools_of);
    let directional = flag_bool_exec(bit_exec(fl, DIRECTIONAL), val_exec(f, pm, 5))?;
    let saturated = flag_bool_exec(bit_exec(fl, SATURATED), val_exec(f, pm, 6))?;
    let subdivide = flag_bool_exec(bit_exec(fl, SUBDIVIDE), val_exec(f, pm, 7))?;
    let lightmap = flag_bool_exec(bit_exec(fl, LIGHTMAP), val_exec(f, pm, 8))?;
    let static_ = flag_bool_exec(bit_exec(fl, STATIC), val_exec(f, pm, 9))?;
    let bicolored = flag_bool_exec(bit_exec(fl, BICOLORED), val_exec(f, pm, 10))?;
    Ok((directional, saturated, subdivide, lightmap, static_, bicolored))
}

fn read_tail(f: &Vec<Fld>, pm: bool, fl: u32) -> (r: Result<
    (Option<Range>, Option<Color>, Option<Color>, Option<u32>, Option<u32>),
    Error,
>)
    requires
        f@.len() == count(pm) + 1,
        forall|i: int| 1 <= i <= count(pm) ==> (#[trigger] fields_view(f@)[i]) is U32,
    ensures
        match tail_of(fields_view(f@), pm, fl) {
            Some(t) => r == Ok::<_, Error>(t),
            None => r == Err::<
                (Option<Range>, Option<Color>, Option<Color>, Option<u32>, Option<u32>),
                Error,
            >(Error::Invalid),
        },
{
    reveal(tail_of);
    let range = opt_range_exec(
        bit_exec(fl, RANGE),
        Range { min: val_exec(f, pm, 18), max: val_exec(f, pm, 19) },
    )?;
    let color = opt_color_exec(
        bit_exec(fl, COLOR),
        Color { r: val_exec(f, pm, 20), g: val_exec(f, pm, 21), b: val_exec(f, pm, 22) },
    )?;
    let ambient_color = opt_color_exec(
        bit_exec(fl, AMBIENT_COLOR),
        Color { r: val_exec(f, pm, 23), g: val_exec(f, pm, 24), b: val_exec(f, pm, 25) },
    )?;
    let ambient = opt_unit_exec(bit_exec(fl, AMBIENT), val_exec(f, pm, 26))?;
    let diffuse = opt_unit_exec(bit_exec(fl, DIFFUSE), val_exec(f, pm, 27))?;
    Ok((range, color, ambient_color, ambient, diffuse))
}

fn read_with(data: &[u8], ad: &AnimDef, pm: bool) -> (r: Result<LightState<Vec<u8>>, Error>)
    ensures
        match parse_with(ad@, data@, pm) {
            Some(v) => r matches Ok(x) && x.deep_view() == v,
            None => r == Err::<LightState<Vec<u8>>, Error>(Error::Invalid),
        },
{
    let n: usize = if pm {
        140
    } else {
        112
    };
    if data.len() != n {
        return Err(Error::Invalid);
    }
    let l = layout_exec(pm);
    proof {
        lemma_layout(pm);
    }
    let f = decode_record(data, l.as_slice());
    let ghost fv = fields_view(f@);
    proof {
        assert forall|i: int| 1 <= i <= count(pm) implies (#[trigger] fv[i]) is U32 by {
            assert(conforms(fv[i], layout(pm)[i]));
        }
        assert(conforms(fv[0], layout(pm)[0]));
    }
    let fl = val_exec(&f, pm, 2);
    let limit: u32 = if pm {
        0x4000
    } else {
        0x200
    };
    if fl >= limit {
        return Err(Error::Invalid);
    }
    let name = match unpad_exec(get_bytes(&f, 0)) {
        Some(x) => x,
        None => return Err(Error::Invalid),
    };
    let expected = ad.light_from_index(val_exec(&f, pm, 1))?;
    let active_state = match bool32_exec(val_exec(&f, pm, 3)) {
        Some(b) => b,
        None => return Err(Error::Invalid),
    };
    let bs = read_bools(&f, pm, fl)?;
    let translate = translate_exec(
        ad,
        fl,
        val_exec(&f, pm, 11),
        Vec3 { x: val_exec(&f, pm, 12), y: val_exec(&f, pm, 13), z: val_exec(&f, pm, 14) },
    )?;
    let orientation = opt_vec_exec(
        bit_exec(fl, ORIENTATION),
        Vec3 { x: val_exec(&f, pm, 15), y: val_exec(&f, pm, 16), z: val_exec(&f, pm, 17) },
    )?;
    if !bytes_eq(&name, &expected) || (!active_state && fl != 0) {
        return Err(Error::Invalid);
    }
    let t = read_tail(&f, pm, fl)?;
    let type_ = val_exec(&f, pm, 4);
    Ok(
        LightState {
            name,
            active_state,
            type_,
            directional: bs.0,
            saturated: bs.1,
            subdivide: bs.2,
            lightmap: bs.3,
            static_: bs.4,
            bicolored: bs.5,
            translate,
            orientation,
            range: t.0,
            color: t.1,
            ambient_color: t.2,
            ambient: t.3,
            diffuse: t.4,
        },
    )
}

fn word_exec(
    b0: bool,
    b1: bool,
    b2: bool,
    b3: bool,
    b4: bool,
    b5: bool,
    b6: bool,
    b7: bool,
    b8: bool,
    b9: bool,
    b10: bool,
    b11: bool,
    b12: bool,
    b13: bool,
) -> (r: u32)
    ensures
        r == word(b0, b1, b2, b3, b4, b5, b6, b7, b8, b9, b10, b11, b12, b13),
{
    (if b0 { 1u32 } else { 0u32 }) | (if b1 { 2u32 } else { 0u32 }) | (if b2 { 4u32 } else { 0u32 })
        | (if b3 { 8u32 } else { 0u32 }) | (if b4 { 0x10u32 } else { 0u32 }) | (if b5 {
        0x20u32
    } else {
        0u32
    }) | (if b6 { 0x40u32 } else { 0u32 }) | (if b7 { 0x80u32 } else { 0u32 }) | (if b8 {
        0x100u32
    } else {
        0u32
    }) | (if b9 { 0x200u32 } else { 0u32 }) | (if b10 { 0x400u32 } else { 0u32 }) | (if b11 {
        0x800u32
    } else {
        0u32
    }) | (if b12 { 0x1000u32 } else { 0u32 }) | (if b13 { 0x2000u32 } else { 0u32 })
}

fn sb_exec(o: Option<bool>) -> (r: u32)
    ensures
        r == sb(o),
{
    match o {
        Some(true) => 1,
        _ => 0,
    }
}

fn sf_exec(o: Option<u32>) -> (r: u32)
    ensures
        r == sf(o),
{
    match o {
        Some(x) => x,
        None => 0,
    }
}

fn write_head(v: &LightState<Vec<u8>>, ad: &AnimDef) -> (r: Result<(Vec<u8>, u32, u32, Vec3), Error>)
    ensures
        match (
            pad(v.name@, 32),
            index_of(ad@.lights, v.name@),
            node_index_of(ad@, v.deep_view().translate),
        ) {
            (Some(nb), Some(li), Some(ni)) => r matches Ok(x) && x.0@ == nb && x.1 == li as u32 && x.2
                == ni as u32 && x.3 == position_of(v.deep_view().translate),
            _ => r == Err::<(Vec<u8>, u32, u32, Vec3), Error>(Error::Invalid),
        },
{
    let nb = match pad_exec(&v.name, 32) {
        Some(b) => b,
        None => return Err(Error::Invalid),
    };
    let li = ad.light_to_index(&v.name)?;
    match &v.translate {
        Some(Translate::AtNode(a)) => {
            let i = ad.node_or_input_to_index(&a.name, INPUT)?;
            Ok((nb, li as u32, i, a.pos))
        },
        Some(Translate::Absolute(q)) => Ok((nb, li as u32, 0, *q)),
        None => Ok((nb, li as u32, 0, Vec3 { x: 0, y: 0, z: 0 })),
    }
}

fn flags_exec(v: &LightState<Vec<u8>>, pm: bool) -> (r: u32)
    ensures
        r == flags_of(v.deep_view(), pm),
{
    let (is_abs, is_at): (bool, bool) = match &v.translate {
        Some(Translate::AtNode(_)) => (false, true),
        Some(Translate::Absolute(_)) => (true, false),
        None => (false, false),
    };
    word_exec(
        is_abs,
        is_at,
        v.orientation.is_some(),
        v.range.is_some(),
        v.color.is_some(),
        v.ambient.is_some(),
        v.diffuse.is_some(),
        v.directional.is_some(),
        v.saturated.is_some(),
        pm && v.subdivide.is_some(),
        pm && v.static_.is_some(),
        pm && v.ambient_color.is_some(),
        pm && v.bicolored.is_some(),
        pm && v.lightmap.is_some(),
    )
}

fn sv_exec(o: Option<Vec3>) -> (r: Vec3)
    ensures
        r == sv(o),
{
    match o {
        Some(x) => x,
        None => Vec3 { x: 0, y: 0, z: 0 },
    }
}

fn sr_exec(o: Option<Range>) -> (r: Range)
    ensures
        r == sr(o),
{
    match o {
        Some(x) => x,
        None => Range { min: 0, max: 0 },
    }
}

fn sc_exec(o: Option<Color>) -> (r: Color)
    ensures
        r == sc(o),
{
    match o {
        Some(x) => x,
        None => Color { r: 0, g: 0, b: 0 },
    }
}

/// Reads a Pirate's Moon `LIGHT_STATE` record.
pub fn read_pm(data: &[u8], ad: &AnimDef) -> (r: Result<LightState<Vec<u8>>, Error>)
    ensures
        match parse_pm(ad@, data@) {
            Some(v) => r matches Ok(x) && x.deep_view() == v,
            None => r == Err::<LightState<Vec<u8>>, Error>(Error::Invalid),
        },
{
    read_with(data, ad, true)
}

/// Reads a Recoil `LIGHT_STATE` record.
pub fn read_rc(data: &[u8], ad: &AnimDef) -> (r: Result<LightState<Vec<u8>>, Error>)
    ensures
        match parse_rc(ad@, data@) {
            Some(v) => r matches Ok(x) && x.deep_view() == v,
            None => r == Err::<LightState<Vec<u8>>, Error>(Error::Invalid),
        },
{
    read_with(data, ad, false)
}

/// Writes a Pirate's Moon `LIGHT_STATE` record.
pub fn write_pm(v: &LightState<Vec<u8>>, ad: &AnimDef, out: &mut Vec<u8>) -> (r: Result<
    (),
    Error,
>)
    ensures
        match serialize_pm(ad@, v.deep_view()) {
            Some(b) => r is Ok && final(out)@ == old(out)@ + b,
            None => r == Err::<(), Error>(Error::Invalid) && final(out)@ == old(out)@,
        },
{
    let (nb, li, ni, p) = write_head(v, ad)?;
    let fl = flags_exec(v, true);
    let o = sv_exec(v.orientation);
    let rg = sr_exec(v.range);
    let c = sc_exec(v.color);
    let a = sc_exec(v.ambient_color);
    let active: u32 = if v.active_state {
        1
    } else {
        0
    };
    let ghost nbv = nb@;
    let fs = vec![
        Fld::Bytes(nb),
        Fld::U32(li),
        Fld::U32(fl),
        Fld::U32(active),
        Fld::U32(v.type_),
        Fld::U32(sb_exec(v.directional)),
        Fld::U32(sb_exec(v.saturated)),
        Fld::U32(sb_exec(v.subdivide)),
        Fld::U32(sb_exec(v.lightmap)),
        Fld::U32(sb_exec(v.static_)),
        Fld::U32(sb_exec(v.bicolored)),
        Fld::U32(ni),
        Fld::U32(p.x),
        Fld::U32(p.y),
        Fld::U32(p.z),
        Fld::U32(o.x),
        Fld::U32(o.y),
        Fld::U32(o.z),
        Fld::U32(rg.min),
        Fld::U32(rg.max),
        Fld::U32(c.r),
        Fld::U32(c.g),
        Fld::U32(c.b),
        Fld::U32(a.r),
        Fld::U32(a.g),
        Fld::U32(a.b),
        Fld::U32(sf_exec(v.ambient)),
        Fld::U32(sf_exec(v.diffuse)),
    ];
    proof {
        assert(fields_view(fs@) =~= to_fields(ad@, v.deep_view(), true).unwrap());
    }
    encode_record(&fs, out);
    Ok(())
}

/// Writes a Recoil `LIGHT_STATE` record; the parts Recoil lacks are not
/// written.
pub fn write_rc(v: &LightState<Vec<u8>>, ad: &AnimDef, out: &mut Vec<u8>) -> (r: Result<
    (),
    Error,
>)
    ensures
        match serialize_rc(ad@, v.deep_view()) {
            Some(b) => r is Ok && final(out)@ == old(out)@ + b,
            None => r == Err::<(), Error>(Error::Invalid) && final(out)@ == old(out)@,
        },
{
    let (nb, li, ni, p) = write_head(v, ad)?;
    let fl = flags_exec(v, false);
    let o = sv_exec(v.orientation);
    let rg = sr_exec(v.range);
    let c = sc_exec(v.color);
    let active: u32 = if v.active_state {
        1
    } else {
        0
    };
    let ghost nbv = nb@;
    let fs = vec![
        Fld::Bytes(nb),
        Fld::U32(li),
        Fld::U32(fl),
        Fld::U32(active),
        Fld::U32(v.type_),
        Fld::U32(sb_exec(v.directional)),
        Fld::U32(sb_exec(v.saturated)),
        Fld::U32(ni),
        Fld::U32(p.x),
        Fld::U32(p.y),
        Fld::U32(p.z),
        Fld::U32(o.x),
        Fld::U32(o.y),
        Fld::U32(o.z),
        Fld::U32(rg.min),
        Fld::U32(rg.max),
        Fld::U32(c.r),
        Fld::U32(c.g),
        Fld::U32(c.b),
        Fld::U32(sf_exec(v.ambient)),
        Fld::U32(sf_exec(v.diffuse)),
    ];
    proof {
        assert(fields_view(fs@) =~= to_fields(ad@, v.deep_view(), false).unwrap());
    }
    encode_record(&fs, out);
    Ok(())
}

/// The values of a written record.
proof fn lemma_vals(ad: AnimDefV, v: LightState<Seq<u8>>, pm: bool)
    requires
        to_fields(ad, v, pm) is Some,
    ensures
        ({
            let g = to_fields(ad, v, pm).unwrap();
            let p = position_of(v.translate);
            let o = sv(v.orientation);
            let r = sr(v.range);
            let c = sc(v.color);
            let a = sc(v.ambient_color);
            &&& g[0] == FieldV::Bytes(pad(v.name, 32).unwrap())
            &&& val(g, pm, 1) == index_of(ad.lights, v.name).unwrap() as u32
            &&& val(g, pm, 2) == flags_of(v, pm)
            &&& val(g, pm, 3) == bool_int(v.active_state) as u32
            &&& val(g, pm, 4) == v.type_
            &&& val(g, pm, 5) == sb(v.directional)
            &&& val(g, pm, 6) == sb(v.saturated)
            &&& val(g, pm, 7) == (if pm { sb(v.subdivide) } else { 0 })
            &&& val(g, pm, 8) == (if pm { sb(v.lightmap) } else { 0 })
            &&& val(g, pm, 9) == (if pm { sb(v.static_) } else { 0 })
            &&& val(g, pm, 10) == (if pm { sb(v.bicolored) } else { 0 })
            &&& val(g, pm, 11) == node_index_of(ad, v.translate).unwrap() as u32
            &&& vec_val(g, pm, 12) == p
            &&& vec_val(g, pm, 15) == o
            &&& range_val(g, pm, 18) == r
            &&& color_val(g, pm, 20) == c
            &&& color_val(g, pm, 23) == (if pm { a } else { Color { r: 0, g: 0, b: 0 } })
            &&& val(g, pm, 26) == sf(v.ambient)
            &&& val(g, pm, 27) == sf(v.diffuse)
        }),
{
    reveal(val);
}

/// A stored optional boolean reads back as itself under its own flag.
proof fn lemma_flag_bool_again(o: Option<bool>)
    ensures
        flag_bool(o is Some, sb(o)) == Some(o),
{
}

/// Booleans that were read, stored under their own flags, read back as
/// themselves.
proof fn lemma_bools_again(f: Seq<FieldV>, g: Seq<FieldV>, pm: bool, fl: u32, fl2: u32)
    requires
        bools_of(f, pm, fl) is Some,
        !pm ==> !bit(fl, 9) && !bit(fl, 10) && !bit(fl, 11) && !bit(fl, 12) && !bit(fl, 13),
        ({
            let b = bools_of(f, pm, fl).unwrap();
            &&& bit(fl2, DIRECTIONAL) == b.0 is Some
            &&& bit(fl2, SATURATED) == b.1 is Some
            &&& bit(fl2, SUBDIVIDE) == (pm && b.2 is Some)
            &&& bit(fl2, LIGHTMAP) == (pm && b.3 is Some)
            &&& bit(fl2, STATIC) == (pm && b.4 is Some)
            &&& bit(fl2, BICOLORED) == (pm && b.5 is Some)
            &&& val(g, pm, 5) == sb(b.0)
            &&& val(g, pm, 6) == sb(b.1)
            &&& val(g, pm, 7) == (if pm { sb(b.2) } else { 0 })
            &&& val(g, pm, 8) == (if pm { sb(b.3) } else { 0 })
            &&& val(g, pm, 9) == (if pm { sb(b.4) } else { 0 })
            &&& val(g, pm, 10) == (if pm { sb(b.5) } else { 0 })
        }),
    ensures
        bools_of(g, pm, fl2) == bools_of(f, pm, fl),
{
    reveal(bools_of);
    let b = bools_of(f, pm, fl).unwrap();
    lemma_flag_bool_again(b.0);
    lemma_flag_bool_again(b.1);
    lemma_flag_bool_again(b.2);
    lemma_flag_bool_again(b.3);
    lemma_flag_bool_again(b.4);
    lemma_flag_bool_again(b.5);
}

/// The range, colours and intensities that were read, stored under their
/// own flags, read back as themselves.
proof fn lemma_tail_again(f: Seq<FieldV>, g: Seq<FieldV>, pm: bool, fl: u32, fl2: u32)
    requires
        tail_of(f, pm, fl) is Some,
        !pm ==> !bit(fl, 11),
        ({
            let t = tail_of(f, pm, fl).unwrap();
            &&& bit(fl2, RANGE) == t.0 is Some
            &&& bit(fl2, COLOR) == t.1 is Some
            &&& bit(fl2, AMBIENT_COLOR) == (pm && t.2 is Some)
            &&& bit(fl2, AMBIENT) == t.3 is Some
            &&& bit(fl2, DIFFUSE) == t.4 is Some
            &&& range_val(g, pm, 18) == sr(t.0)
            &&& color_val(g, pm, 20) == sc(t.1)
            &&& color_val(g, pm, 23) == (if pm { sc(t.2) } else { Color { r: 0, g: 0, b: 0 } })
            &&& val(g, pm, 26) == sf(t.3)
            &&& val(g, pm, 27) == sf(t.4)
        }),
    ensures
        tail_of(g, pm, fl2) == tail_of(f, pm, fl),
{
    reveal(tail_of);
}

/// A translation that was read, stored with its flags, node index and
/// position, reads back as itself.
proof fn lemma_translate_again(ad: AnimDefV, fl: u32, node: u32, p: Vec3, fl2: u32)
    requires
        translate_of(ad, fl, node, p) is Some,
        ({
            let t = translate_of(ad, fl, node, p).unwrap();
            &&& bit(fl2, AT_NODE) == (t matches Some(Translate::AtNode(_)))
            &&& bit(fl2, TRANSLATE_ABS) == (t matches Some(Translate::Absolute(_)))
        }),
    ensures
        ({
            let t = translate_of(ad, fl, node, p).unwrap();
            &&& node_index_of(ad, t) is Some
            &&& translate_of(ad, fl2, node_index_of(ad, t).unwrap() as u32, position_of(t)) == Some(
                t,
            )
        }),
{
    if bit(fl, AT_NODE) {
        lemma_node_or_input_reread(ad, node as int, INPUT as int);
    }
}

/// The booleans that were read are present exactly where their flags are
/// set.
proof fn lemma_bools_flags(f: Seq<FieldV>, pm: bool, fl: u32)
    requires
        bools_of(f, pm, fl) is Some,
    ensures
        ({
            let b = bools_of(f, pm, fl).unwrap();
            &&& b.0 is Some == bit(fl, DIRECTIONAL)
            &&& b.1 is Some == bit(fl, SATURATED)
            &&& b.2 is Some == bit(fl, SUBDIVIDE)
            &&& b.3 is Some == bit(fl, LIGHTMAP)
            &&& b.4 is Some == bit(fl, STATIC)
            &&& b.5 is Some == bit(fl, BICOLORED)
        }),
{
    reveal(bools_of);
}

/// The range, colours and intensities that were read are present exactly
/// where their flags are set.
proof fn lemma_tail_flags(f: Seq<FieldV>, pm: bool, fl: u32)
    requires
        tail_of(f, pm, fl) is Some,
    ensures
        ({
            let t = tail_of(f, pm, fl).unwrap();
            &&& t.0 is Some == bit(fl, RANGE)
            &&& t.1 is Some == bit(fl, COLOR)
            &&& t.2 is Some == bit(fl, AMBIENT_COLOR)
            &&& t.3 is Some == bit(fl, AMBIENT)
            &&& t.4 is Some == bit(fl, DIFFUSE)
        }),
{
    reveal(tail_of);
}

/// The fields of an event that was read describe the same event.
#[verifier::spinoff_prover]
#[verifier::rlimit(30)]
proof fn lemma_fields_again(ad: AnimDefV, f: Seq<FieldV>, pm: bool)
    requires
        from_fields(ad, f, pm) is Some,
        wbytes(f, 0).len() == 32,
    ensures
        to_fields(ad, from_fields(ad, f, pm).unwrap(), pm) matches Some(g) && from_fields(ad, g, pm)
            == from_fields(ad, f, pm),
{
    let v = from_fields(ad, f, pm).unwrap();
    let fl = val(f, pm, 2);
    lemma_pad_unpad(wbytes(f, 0));
    lemma_name_reread(ad.lights, val(f, pm, 1) as int);
    lemma_flag_bits(fl);
    lemma_bools_flags(f, pm, fl);
    lemma_tail_flags(f, pm, fl);
    let fl2 = flags_of(v, pm);
    lemma_word(
        v.translate matches Some(Translate::Absolute(_)),
        v.translate matches Some(Translate::AtNode(_)),
        v.orientation is Some,
        v.range is Some,
        v.color is Some,
        v.ambient is Some,
        v.diffuse is Some,
        v.directional is Some,
        v.saturated is Some,
        pm && v.subdivide is Some,
        pm && v.static_ is Some,
        pm && v.ambient_color is Some,
        pm && v.bicolored is Some,
        pm && v.lightmap is Some,
    );
    lemma_translate_again(ad, fl, val(f, pm, 11), vec_val(f, pm, 12), fl2);
    let g = to_fields(ad, v, pm).unwrap();
    lemma_vals(ad, v, pm);
    lemma_bools_again(f, g, pm, fl, fl2);
    lemma_tail_again(f, g, pm, fl, fl2);
    lemma_unpad_pad(v.name, 32);
    assert(unpad(wbytes(g, 0)) == Some(v.name));
    assert(name_at(ad.lights, val(g, pm, 1) as int) == Some(v.name));
    assert(bool_of(val(g, pm, 3) as int) == Some(v.active_state));
    assert(translate_of(ad, fl2, val(g, pm, 11), vec_val(g, pm, 12)) == Some(v.translate));
    assert(opt_vec(bit(fl2, ORIENTATION), vec_val(g, pm, 15)) == Some(v.orientation));
    assert(!v.active_state ==> fl2 == 0);
    assert(fl2 < (if pm { 0x4000u32 } else { 0x200u32 }));
}

/// Writing an event that was read, then reading it again, gives the same
/// event, in the records of each game.
pub proof fn lemma_reread_with(ad: AnimDefV, s: Seq<u8>, pm: bool)
    requires
        parse_with(ad, s, pm) is Some,
    ensures
        serialize_with(ad, parse_with(ad, s, pm).unwrap(), pm) matches Some(b) && b.len()
            == record_size(pm) && parse_with(ad, b, pm) == parse_with(ad, s, pm),
{
    let f = decode(layout(pm), s);
    lemma_layout(pm);
    lemma_decode_conforms(layout(pm), s);
    assert(conforms(f[0], layout(pm)[0]));
    lemma_fields_again(ad, f, pm);
    let g = to_fields(ad, from_fields(ad, f, pm).unwrap(), pm).unwrap();
    assert(conforms_all(g, layout(pm))) by {
        lemma_unpad_pad(from_fields(ad, f, pm).unwrap().name, 32);
    }
    lemma_decode_encode(g, layout(pm));
    lemma_encode_size(g, layout(pm));
}

/// Writing a Pirate's Moon event that was read, then reading it again,
/// gives the same event.
pub proof fn lemma_reread_pm(ad: AnimDefV, s: Seq<u8>)
    requires
        parse_pm(ad, s) is Some,
    ensures
        serialize_pm(ad, parse_pm(ad, s).unwrap()) matches Some(b) && parse_pm(ad, b) == parse_pm(
            ad,
            s,
        ),
{
    lemma_reread_with(ad, s, true);
}

/// Writing a Recoil event that was read, then reading it again, gives the
/// same event.
pub proof fn lemma_reread_rc(ad: AnimDefV, s: Seq<u8>)
    requires
        parse_rc(ad, s) is Some,
    ensures
        serialize_rc(ad, parse_rc(ad, s).unwrap()) matches Some(b) && parse_rc(ad, b) == parse_rc(
            ad,
            s,
        ),
{
    lemma_reread_with(ad, s, false);
}

/// A flag word of the fourteen known bits is the word of its bits.
proof fn lemma_word_rebuild(x: u32)
    by (bit_vector)
    requires
        x < 0x4000,
    ensures
        x == word(
            bit(x, 0),
            bit(x, 1),
            bit(x, 2),
            bit(x, 3),
            bit(x, 4),
            bit(x, 5),
            bit(x, 6),
            bit(x, 7),
            bit(x, 8),
            bit(x, 9),
            bit(x, 10),
            bit(x, 11),
            bit(x, 12),
            bit(x, 13),
        ),
{
}

/// The fields of a record of Pirate's Moon (`pm`) or Recoil are written back
/// exactly as read: a translation at a node has no flag of an absolute
/// translation, and no part whose flag is unset holds `-0.0`.
pub open spec fn exact_fields(f: Seq<FieldV>, pm: bool) -> bool {
    let fl = val(f, pm, 2);
    &&& bit(fl, AT_NODE) ==> !bit(fl, TRANSLATE_ABS)
    &&& !bit(fl, AT_NODE) && !bit(fl, TRANSLATE_ABS) ==> vec3_no_neg_zero(vec_val(f, pm, 12))
    &&& !bit(fl, ORIENTATION) ==> vec3_no_neg_zero(vec_val(f, pm, 15))
    &&& !bit(fl, RANGE) ==> range_no_neg_zero(range_val(f, pm, 18))
    &&& !bit(fl, COLOR) ==> color_no_neg_zero(color_val(f, pm, 20))
    &&& !bit(fl, AMBIENT_COLOR) ==> color_no_neg_zero(color_val(f, pm, 23))
    &&& !bit(fl, AMBIENT) ==> val(f, pm, 26) != float::NEG_ZERO
    &&& !bit(fl, DIFFUSE) ==> val(f, pm, 27) != float::NEG_ZERO
}

/// A record of Pirate's Moon is written back exactly as read.
pub open spec fn exact_record_pm(ad: AnimDefV, s: Seq<u8>) -> bool {
    exact_fields(decode(layout(true), s), true)
}

/// A record of Recoil is written back exactly as read.
pub open spec fn exact_record_rc(ad: AnimDefV, s: Seq<u8>) -> bool {
    exact_fields(decode(layout(false), s), false)
}

/// The values of two records that agree on each value of the Pirate's Moon
/// record the other holds are the same fields.
proof fn lemma_same_vals(f: Seq<FieldV>, g: Seq<FieldV>, pm: bool)
    requires
        conforms_all(f, layout(pm)),
        conforms_all(g, layout(pm)),
        f[0] == g[0],
        forall|k: int| 1 <= k <= 27 ==> #[trigger] val(g, pm, k) == val(f, pm, k),
    ensures
        g == f,
{
    lemma_layout(pm);
    lemma_conforming_fields(f, layout(pm));
    lemma_conforming_fields(g, layout(pm));
    reveal(val);
    assert forall|j: int| 0 <= j < f.len() implies #[trigger] g[j] == f[j] by {
        if j > 0 {
            let k = if pm || j <= 6 {
                j
            } else if j <= 18 {
                j + 4
            } else {
                j + 7
            };
            assert(pos(pm, k) == Some(j));
            assert(val(g, pm, k) == val(f, pm, k));
            assert(layout(pm)[j] == Kind::U32);
        }
    }
    assert(g =~= f);
}

/// Writing the event of a record of Pirate's Moon (`pm`) or Recoil gives the
/// record back, where the lights and the nodes of the definition are
/// distinct, no node bears the input node's name, and the record is written
/// back exactly.
#[verifier::spinoff_prover]
#[verifier::rlimit(100)]
pub proof fn lemma_exact_with(ad: AnimDefV, s: Seq<u8>, pm: bool)
    requires
        parse_with(ad, s, pm) is Some,
        crate::anim_def::unique_names(ad.lights),
        crate::anim_def::distinct_nodes(ad),
        exact_fields(decode(layout(pm), s), pm),
    ensures
        serialize_with(ad, parse_with(ad, s, pm).unwrap(), pm) == Some(s),
{
    let f = decode(layout(pm), s);
    let v = parse_with(ad, s, pm).unwrap();
    lemma_layout(pm);
    lemma_decode_conforms(layout(pm), s);
    lemma_encode_decode(layout(pm), s);
    assert(conforms(f[0], layout(pm)[0]));
    let fl = val(f, pm, 2);
    lemma_pad_unpad(wbytes(f, 0));
    lemma_index_of_name_at(ad.lights, val(f, pm, 1) as int);
    if bit(fl, AT_NODE) {
        lemma_node_or_input_exact(ad, val(f, pm, 11) as int, INPUT as int);
    }
    lemma_flag_bits(fl);
    lemma_bools_flags(f, pm, fl);
    lemma_tail_flags(f, pm, fl);
    lemma_word(
        v.translate matches Some(Translate::Absolute(_)),
        v.translate matches Some(Translate::AtNode(_)),
        v.orientation is Some,
        v.range is Some,
        v.color is Some,
        v.ambient is Some,
        v.diffuse is Some,
        v.directional is Some,
        v.saturated is Some,
        pm && v.subdivide is Some,
        pm && v.static_ is Some,
        pm && v.ambient_color is Some,
        pm && v.bicolored is Some,
        pm && v.lightmap is Some,
    );
    lemma_word_rebuild(fl);
    assert(to_fields(ad, v, pm) is Some);
    let g = to_fields(ad, v, pm).unwrap();
    lemma_vals(ad, v, pm);
    assert(val(g, pm, 2) == fl);
    assert(conforms_all(g, layout(pm))) by {
        lemma_unpad_pad(v.name, 32);
        assert forall|j: int| 0 <= j < g.len() implies #[trigger] conforms(g[j], layout(pm)[j]) by {
        }
    }
    assert forall|k: int| 1 <= k <= 27 implies #[trigger] val(g, pm, k) == val(f, pm, k) by {
        reveal(bools_of);
        reveal(tail_of);
        if !pm && pos(false, k) is None {
            reveal(val);
        }
    }
    lemma_same_vals(f, g, pm);
}

/// Writing the event of a Pirate's Moon record gives the record back, where the
/// lights and the nodes of the definition are distinct and no node bears the
/// input node's name and the record is written back
/// exactly.
pub proof fn lemma_exact_pm(ad: AnimDefV, s: Seq<u8>)
    requires
        parse_pm(ad, s) is Some,
        crate::anim_def::unique_names(ad.lights),
        crate::anim_def::distinct_nodes(ad),
        exact_record_pm(ad, s),
    ensures
        serialize_pm(ad, parse_pm(ad, s).unwrap()) == Some(s),
{
    lemma_exact_with(ad, s, true);
}

/// Writing the event of a Recoil record gives the record back, where the lights
/// and the nodes of the definition are distinct and no node bears the input
/// node's name and the record is written back
/// exactly.
pub proof fn lemma_exact_rc(ad: AnimDefV, s: Seq<u8>)
    requires
        parse_rc(ad, s) is Some,
        crate::anim_def::unique_names(ad.lights),
        crate::anim_def::distinct_nodes(ad),
        exact_record_rc(ad, s),
    ensures
        serialize_rc(ad, parse_rc(ad, s).unwrap()) == Some(s),
{
    lemma_exact_with(ad, s, false);
}

/// Whether the light of an event read from a record of Pirate's Moon (`pm`)
/// or Recoil is active is given by the four bytes at offset 40, read as a
/// little-endian number: `true` where they hold `1`, `false` where they hold
/// `0` (a record holding any other number is not read).
pub proof fn lemma_active_read(ad: AnimDefV, s: Seq<u8>, pm: bool)
    requires
        parse_with(ad, s, pm) is Some,
    ensures
        vstd::bytes::spec_u32_from_le_bytes(s.subrange(40, 44)) == (if parse_with(
            ad,
            s,
            pm,
        ).unwrap().active_state {
            1u32
        } else {
            0u32
        }),
{
    lemma_layout(pm);
    assert(layout(pm).take(3) =~= seq![Kind::Bytes(32), Kind::U32, Kind::U32]);
    reveal_with_fuel(size, 4);
    reveal(val);
    crate::record::lemma_decode_u32(layout(pm), s, 3);
}

/// The record of Pirate's Moon (`pm`) or Recoil written for an event holds
/// whether its light is active in the four bytes at offset 40,
/// little-endian: `1` for `true`, `0` for `false`.
pub proof fn lemma_active_written(ad: AnimDefV, v: LightState<Seq<u8>>, pm: bool)
    requires
        serialize_with(ad, v, pm) is Some,
    ensures
        serialize_with(ad, v, pm).unwrap().subrange(40, 44) == vstd::bytes::spec_u32_to_le_bytes(
            if v.active_state {
                1u32
            } else {
                0u32
            },
        ),
{
    let g = to_fields(ad, v, pm).unwrap();
    lemma_layout(pm);
    assert(pad(v.name, 32).unwrap().len() == 32);
    assert(conforms_all(g, layout(pm))) by {
        assert forall|k: int| 0 <= k < g.len() implies #[trigger] conforms(g[k], layout(pm)[k]) by {
            if k > 0 {
                assert(layout(pm)[k] == Kind::U32);
            }
        }
    }
    assert(layout(pm).take(3) =~= seq![Kind::Bytes(32), Kind::U32, Kind::U32]);
    reveal_with_fuel(size, 4);
    crate::record::lemma_encode_u32(g, layout(pm), 3);
}


/// The four bytes of `s` at offset `off` hold a boolean, little-endian:
/// `1` for `true`, `0` for `false`.
pub open spec fn holds_bool(s: Seq<u8>, off: int, b: bool) -> bool {
    crate::record::le32_at(s, off) == (if b {
        1u32
    } else {
        0u32
    })
}

/// Value `k` of a record of Pirate's Moon (`pm`) or Recoil that both have
/// is the little-endian number at byte `28 + 4 * k`.
proof fn lemma_value_at(s: Seq<u8>, pm: bool, k: int)
    requires
        s.len() == record_size(pm),
        1 <= k <= 6 || (pm && 1 <= k <= 10),
    ensures
        val(decode(layout(pm), s), pm, k) == crate::record::le32_at(s, 28 + 4 * k),
{
    lemma_layout(pm);
    reveal(val);
    crate::record::lemma_named_u32_offset(32, count(pm), k);
    crate::record::lemma_numbers_at(layout(pm), s, k);
}

/// The six light switches of an event read from a record of Pirate's Moon
/// (`pm`) or Recoil follow the record: each is present exactly where its
/// bit of the flag word (the four bytes at offset 36, little-endian) is
/// set, and then holds the boolean stored at its offset (directional at 48,
/// saturated at 52, and in Pirate's Moon subdivide at 56, lightmap at 60,
/// static at 64, bicolored at 68). A Recoil record has only the first two.
pub proof fn lemma_switches_read(ad: AnimDefV, s: Seq<u8>, pm: bool)
    requires
        parse_with(ad, s, pm) is Some,
    ensures
        ({
            let v = parse_with(ad, s, pm).unwrap();
            let fl = crate::record::le32_at(s, 36);
            &&& (v.directional is Some) == bit(fl, DIRECTIONAL)
            &&& (v.saturated is Some) == bit(fl, SATURATED)
            &&& v.directional matches Some(b) ==> holds_bool(s, 48, b)
            &&& v.saturated matches Some(b) ==> holds_bool(s, 52, b)
            &&& pm ==> (v.subdivide is Some) == bit(fl, SUBDIVIDE) && (v.lightmap is Some) == bit(
                fl,
                LIGHTMAP,
            ) && (v.static_ is Some) == bit(fl, STATIC) && (v.bicolored is Some) == bit(
                fl,
                BICOLORED,
            )
            &&& v.subdivide matches Some(b) ==> holds_bool(s, 56, b)
            &&& v.lightmap matches Some(b) ==> holds_bool(s, 60, b)
            &&& v.static_ matches Some(b) ==> holds_bool(s, 64, b)
            &&& v.bicolored matches Some(b) ==> holds_bool(s, 68, b)
            &&& !pm ==> v.subdivide is None && v.lightmap is None && v.static_ is None
                && v.bicolored is None
        }),
{
    let f = decode(layout(pm), s);
    let v = parse_with(ad, s, pm).unwrap();
    let fl = val(f, pm, 2);
    assert(from_fields(ad, f, pm) == Some(v));
    assert(bools_of(f, pm, fl) is Some);
    let bs = bools_of(f, pm, fl).unwrap();
    assert(v.directional == bs.0 && v.saturated == bs.1 && v.subdivide == bs.2);
    assert(v.lightmap == bs.3 && v.static_ == bs.4 && v.bicolored == bs.5);
    lemma_value_at(s, pm, 2);
    lemma_value_at(s, pm, 5);
    lemma_value_at(s, pm, 6);
    reveal(bools_of);
    if pm {
        lemma_value_at(s, pm, 7);
        lemma_value_at(s, pm, 8);
        lemma_value_at(s, pm, 9);
        lemma_value_at(s, pm, 10);
    } else {
        reveal(val);
        lemma_flag_bits(val(f, pm, 2));
    }
}

/// The record of Pirate's Moon (`pm`) or Recoil written for an event holds
/// its light switches at their offsets, little-endian: `1` for one that is
/// on, `0` for one that is off or absent (directional at 48, saturated at
/// 52, and in Pirate's Moon subdivide at 56, lightmap at 60, static at 64,
/// bicolored at 68).
pub proof fn lemma_switches_written(ad: AnimDefV, v: LightState<Seq<u8>>, pm: bool)
    requires
        serialize_with(ad, v, pm) is Some,
    ensures
        ({
            let b = serialize_with(ad, v, pm).unwrap();
            &&& holds_bool(b, 48, v.directional == Some(true))
            &&& holds_bool(b, 52, v.saturated == Some(true))
            &&& pm ==> holds_bool(b, 56, v.subdivide == Some(true)) && holds_bool(
                b,
                60,
                v.lightmap == Some(true),
            ) && holds_bool(b, 64, v.static_ == Some(true)) && holds_bool(
                b,
                68,
                v.bicolored == Some(true),
            )
        }),
{
    let g = to_fields(ad, v, pm).unwrap();
    lemma_layout(pm);
    assert(pad(v.name, 32).unwrap().len() == 32);
    assert(conforms_all(g, layout(pm))) by {
        assert forall|k: int| 0 <= k < g.len() implies #[trigger] conforms(g[k], layout(pm)[k]) by {
            if k > 0 {
                assert(layout(pm)[k] == Kind::U32);
            }
        }
    }
    crate::record::lemma_named_u32_offset(32, count(pm), 5);
    crate::record::lemma_named_u32_offset(32, count(pm), 6);
    crate::record::lemma_numbers_written(g, layout(pm), 5);
    crate::record::lemma_numbers_written(g, layout(pm), 6);
    if pm {
        crate::record::lemma_named_u32_offset(32, count(pm), 7);
        crate::record::lemma_named_u32_offset(32, count(pm), 8);
        crate::record::lemma_named_u32_offset(32, count(pm), 9);
        crate::record::lemma_named_u32_offset(32, count(pm), 10);
        crate::record::lemma_numbers_written(g, layout(pm), 7);
        crate::record::lemma_numbers_written(g, layout(pm), 8);
        crate::record::lemma_numbers_written(g, layout(pm), 9);
        crate::record::lemma_numbers_written(g, layout(pm), 10);
    }
}

} // verus!
