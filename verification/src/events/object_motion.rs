//! `OBJECT_MOTION` (10): moves a node under gravity, translation,
//! rotation and scale, with optional bounce sequences and sounds.
//!
//! Two animations of the game, `hit_ramp1` and `hit_ramp2` of `ramp1` and
//! `ramp2`, store a translation range with only its minimum flag set; for
//! them that flag alone marks the range, on reading and on writing.
use vstd::prelude::*;
use crate::anim_def::{index_of, lemma_name_reread, name_at, AnimDef, AnimDefV};
use crate::error::Error;
use crate::flags::{bit, bit_exec};
use crate::float;
use crate::model::{range_is_zero, range_is_zero_exec, vec3_is_zero, vec3_is_zero_exec, Range, Vec3};
use crate::record::{
    conforms, conforms_all, decode, decode_record, encode, encode_record, fields_view, get_bytes,
    get_u16, get_u32, lemma_decode_conforms, lemma_decode_encode, lemma_encode_size, size, w16, w32,
    wbytes, FieldV, Fld, Kind,
};
use crate::text::{
    all_zero, all_zero_exec, bytes_eq, lemma_pad_unpad, lemma_unpad_pad, pad,
    pad_exec, unpad, unpad_exec, zeros, zeros_exec,
};

use crate::anim_def::{lemma_index_of_name_at};
use crate::record::{lemma_conforming_fields, lemma_encode_decode};
use crate::model::{vec3_no_neg_zero, range_no_neg_zero};
verus! {

/// Gravity: a value, and whether it is complex or ignores altitude.
#[derive(Clone, Copy, Debug, PartialEq, Eq, Structural)]
pub struct Gravity {
    pub value: u32,
    pub complex: bool,
    pub no_altitude: bool,
}

/// The ranges a translation is drawn from.
#[derive(Clone, Copy, Debug, PartialEq, Eq, Structural)]
pub struct TranslationRange {
    pub xz: Range,
    pub y: Range,
    pub initial: Range,
    pub delta: Range,
}

/// A translation.
#[derive(Clone, Copy, Debug, PartialEq, Eq, Structural)]
pub struct ObjectMotionTranslation {
    pub initial: Vec3,
    pub delta: Vec3,
    pub rnd_xz: Vec3,
}

/// A forward rotation, over time or over distance.
#[derive(Clone, Copy, Debug, PartialEq, Eq, Structural)]
pub enum ForwardRotation {
    Time { initial: u32, delta: u32 },
    Distance { initial: u32 },
}

/// A rotation about the three axes.
#[derive(Clone, Copy, Debug, PartialEq, Eq, Structural)]
pub struct ObjectMotionXyzRot {
    pub initial: Vec3,
    pub delta: Vec3,
}

/// A scaling.
#[derive(Clone, Copy, Debug, PartialEq, Eq, Structural)]
pub struct ObjectMotionScale {
    pub initial: Vec3,
    pub delta: Vec3,
}

/// The sequences called on a bounce, by surface.
#[derive(Debug)]
pub struct BounceSequences<N> {
    pub default: Option<N>,
    pub water: Option<N>,
    pub lava: Option<N>,
}

/// A sound played on a bounce.
#[derive(Debug)]
pub struct BounceSound<N> {
    pub name: N,
    pub volume: u32,
}

/// The sounds played on a bounce, by surface.
#[derive(Debug)]
pub struct BounceSounds<N> {
    pub default: Option<BounceSound<N>>,
    pub water: Option<BounceSound<N>>,
    pub lava: Option<BounceSound<N>>,
}

/// An `OBJECT_MOTION` event.
#[derive(Debug)]
pub struct ObjectMotion<N> {
    pub node: N,
    pub impact_force: bool,
    pub morph: Option<u32>,
    pub gravity: Option<Gravity>,
    pub translation_range: Option<TranslationRange>,
    pub translation: Option<ObjectMotionTranslation>,
    pub forward_rotation: Option<ForwardRotation>,
    pub xyz_rotation: Option<ObjectMotionXyzRot>,
    pub scale: Option<ObjectMotionScale>,
    pub bounce_sequence: Option<BounceSequences<N>>,
    pub bounce_sound: Option<BounceSounds<N>>,
    pub run_time: Option<u32>,
}

/// A bounce sound, as Verus sees it.
pub open spec fn sound_view(s: Option<BounceSound<Vec<u8>>>) -> Option<BounceSound<Seq<u8>>> {
    match s {
        Some(x) => Some(BounceSound { name: x.name@, volume: x.volume }),
        None => None,
    }
}

/// An optional name, as Verus sees it.
pub open spec fn name_view(s: Option<Vec<u8>>) -> Option<Seq<u8>> {
    match s {
        Some(x) => Some(x@),
        None => None,
    }
}

impl DeepView for ObjectMotion<Vec<u8>> {
    type V = ObjectMotion<Seq<u8>>;

    open spec fn deep_view(&self) -> ObjectMotion<Seq<u8>> {
        ObjectMotion {
            node: self.node@,
            impact_force: self.impact_force,
            morph: self.morph,
            gravity: self.gravity,
            translation_range: self.translation_range,
            translation: self.translation,
            forward_rotation: self.forward_rotation,
            xyz_rotation: self.xyz_rotation,
            scale: self.scale,
            bounce_sequence: match &self.bounce_sequence {
                Some(b) => Some(
                    BounceSequences {
                        default: name_view(b.default),
                        water: name_view(b.water),
                        lava: name_view(b.lava),
                    },
                ),
                None => None,
            },
            bounce_sound: match &self.bounce_sound {
                Some(b) => Some(
                    BounceSounds {
                        default: sound_view(b.default),
                        water: sound_view(b.water),
                        lava: sound_view(b.lava),
                    },
                ),
                None => None,
            },
            run_time: self.run_time,
        }
    }
}

/// Size of the record.
pub const SIZE: u32 = 320;

/// The stored index of a bounce sequence (`-1`).
pub const NO_SEQUENCE: u16 = 0xFFFF;

/// Flag bits.
pub const GRAVITY: u32 = 0;

pub const IMPACT_FORCE: u32 = 1;

pub const TRANSLATION: u32 = 2;

pub const TRANSLATION_RANGE_MIN: u32 = 3;

pub const TRANSLATION_RANGE_MAX: u32 = 4;

pub const XYZ_ROTATION: u32 = 5;

pub const FORWARD_ROTATION_DISTANCE: u32 = 6;

pub const FORWARD_ROTATION_TIME: u32 = 7;

pub const SCALE: u32 = 8;

pub const MORPH: u32 = 9;

pub const RUN_TIME: u32 = 10;

pub const BOUNCE_SEQUENCE: u32 = 11;

pub const BOUNCE_SOUND: u32 = 12;

pub const GRAVITY_COMPLEX: u32 = 13;

pub const GRAVITY_NO_ALTITUDE: u32 = 14;

/// The flag word with the given bits set.
pub open spec fn word(b0: bool, b1: bool, b2: bool, b3: bool, b4: bool, b5: bool, b6: bool, b7: bool, b8: bool, b9: bool, b10: bool, b11: bool, b12: bool, b13: bool, b14: bool) -> u32 {
    (if b0 { 1u32 } else { 0u32 }) | (if b1 { 2u32 } else { 0u32 }) | (if b2 { 4u32 } else { 0u32 }) | (if b3 { 8u32 } else { 0u32 }) | (if b4 { 16u32 } else { 0u32 }) | (if b5 { 32u32 } else { 0u32 }) | (if b6 { 64u32 } else { 0u32 }) | (if b7 { 128u32 } else { 0u32 }) | (if b8 { 256u32 } else { 0u32 }) | (if b9 { 512u32 } else { 0u32 }) | (if b10 { 1024u32 } else { 0u32 }) | (if b11 { 2048u32 } else { 0u32 }) | (if b12 { 4096u32 } else { 0u32 }) | (if b13 { 8192u32 } else { 0u32 }) | (if b14 { 16384u32 } else { 0u32 })
}

/// The bits of a flag word are the ones it was built with, and it has no
/// other.
pub proof fn lemma_word(b0: bool, b1: bool, b2: bool, b3: bool, b4: bool, b5: bool, b6: bool, b7: bool, b8: bool, b9: bool, b10: bool, b11: bool, b12: bool, b13: bool, b14: bool)
    by (bit_vector)
    ensures
        bit(word(b0, b1, b2, b3, b4, b5, b6, b7, b8, b9, b10, b11, b12, b13, b14), 0) == b0,
        bit(word(b0, b1, b2, b3, b4, b5, b6, b7, b8, b9, b10, b11, b12, b13, b14), 1) == b1,
        bit(word(b0, b1, b2, b3, b4, b5, b6, b7, b8, b9, b10, b11, b12, b13, b14), 2) == b2,
        bit(word(b0, b1, b2, b3, b4, b5, b6, b7, b8, b9, b10, b11, b12, b13, b14), 3) == b3,
        bit(word(b0, b1, b2, b3, b4, b5, b6, b7, b8, b9, b10, b11, b12, b13, b14), 4) == b4,
        bit(word(b0, b1, b2, b3, b4, b5, b6, b7, b8, b9, b10, b11, b12, b13, b14), 5) == b5,
        bit(word(b0, b1, b2, b3, b4, b5, b6, b7, b8, b9, b10, b11, b12, b13, b14), 6) == b6,
        bit(word(b0, b1, b2, b3, b4, b5, b6, b7, b8, b9, b10, b11, b12, b13, b14), 7) == b7,
        bit(word(b0, b1, b2, b3, b4, b5, b6, b7, b8, b9, b10, b11, b12, b13, b14), 8) == b8,
        bit(word(b0, b1, b2, b3, b4, b5, b6, b7, b8, b9, b10, b11, b12, b13, b14), 9) == b9,
        bit(word(b0, b1, b2, b3, b4, b5, b6, b7, b8, b9, b10, b11, b12, b13, b14), 10) == b10,
        bit(word(b0, b1, b2, b3, b4, b5, b6, b7, b8, b9, b10, b11, b12, b13, b14), 11) == b11,
        bit(word(b0, b1, b2, b3, b4, b5, b6, b7, b8, b9, b10, b11, b12, b13, b14), 12) == b12,
        bit(word(b0, b1, b2, b3, b4, b5, b6, b7, b8, b9, b10, b11, b12, b13, b14), 13) == b13,
        bit(word(b0, b1, b2, b3, b4, b5, b6, b7, b8, b9, b10, b11, b12, b13, b14), 14) == b14,
        word(b0, b1, b2, b3, b4, b5, b6, b7, b8, b9, b10, b11, b12, b13, b14) < 32768,
{
}

pub(crate) fn word_exec(b0: bool, b1: bool, b2: bool, b3: bool, b4: bool, b5: bool, b6: bool, b7: bool, b8: bool, b9: bool, b10: bool, b11: bool, b12: bool, b13: bool, b14: bool) -> (r: u32)
    ensures
        r == word(b0, b1, b2, b3, b4, b5, b6, b7, b8, b9, b10, b11, b12, b13, b14),
{
    (if b0 { 1u32 } else { 0u32 }) | (if b1 { 2u32 } else { 0u32 }) | (if b2 { 4u32 } else { 0u32 }) | (if b3 { 8u32 } else { 0u32 }) | (if b4 { 16u32 } else { 0u32 }) | (if b5 { 32u32 } else { 0u32 }) | (if b6 { 64u32 } else { 0u32 }) | (if b7 { 128u32 } else { 0u32 }) | (if b8 { 256u32 } else { 0u32 }) | (if b9 { 512u32 } else { 0u32 }) | (if b10 { 1024u32 } else { 0u32 }) | (if b11 { 2048u32 } else { 0u32 }) | (if b12 { 4096u32 } else { 0u32 }) | (if b13 { 8192u32 } else { 0u32 }) | (if b14 { 16384u32 } else { 0u32 })
}

/// `ramp1` and `ramp2`, and their animations `hit_ramp1` and `hit_ramp2`.
#[verifier::opaque]
pub open spec fn ramp_name(i: int) -> Seq<u8> {
    if i == 1 {
        seq![0x72u8, 0x61, 0x6D, 0x70, 0x31]
    } else if i == 2 {
        seq![0x72u8, 0x61, 0x6D, 0x70, 0x32]
    } else if i == 3 {
        seq![0x68u8, 0x69, 0x74, 0x5F, 0x72, 0x61, 0x6D, 0x70, 0x31]
    } else {
        seq![0x68u8, 0x69, 0x74, 0x5F, 0x72, 0x61, 0x6D, 0x70, 0x32]
    }
}

fn ramp_name_exec(i: u8) -> (r: Vec<u8>)
    requires
        1 <= i <= 4,
    ensures
        r@ == ramp_name(i as int),
{
    reveal(ramp_name);
    let r = if i == 1 {
        vec![0x72u8, 0x61, 0x6D, 0x70, 0x31]
    } else if i == 2 {
        vec![0x72u8, 0x61, 0x6D, 0x70, 0x32]
    } else if i == 3 {
        vec![0x68u8, 0x69, 0x74, 0x5F, 0x72, 0x61, 0x6D, 0x70, 0x31]
    } else {
        vec![0x68u8, 0x69, 0x74, 0x5F, 0x72, 0x61, 0x6D, 0x70, 0x32]
    };
    proof {
        assert(r@ =~= ramp_name(i as int));
    }
    r
}

/// The animations whose translation range is marked by its minimum flag
/// alone.
pub open spec fn borked(ad: AnimDefV) -> bool {
    (ad.name == ramp_name(1) || ad.name == ramp_name(2)) && (ad.anim_name == ramp_name(3)
        || ad.anim_name == ramp_name(4))
}

fn borked_exec(ad: &AnimDef) -> (r: bool)
    ensures
        r == borked(ad@),
{
    let r1 = ramp_name_exec(1);
    let r2 = ramp_name_exec(2);
    let h1 = ramp_name_exec(3);
    let h2 = ramp_name_exec(4);
    (bytes_eq(&ad.name, &r1) || bytes_eq(&ad.name, &r2)) && (bytes_eq(&ad.anim_name, &h1)
        || bytes_eq(&ad.anim_name, &h2))
}

/// Fields: flags, node index, padding, a zero, gravity, morph, the four
/// translation ranges, translation initial, change, current, gravity change
/// and random part, forward rotation initial, change and current, rotation
/// initial, change and current, scale initial, change and current, three
/// times bounce sequence name, its index, bounce sound index and volume,
/// run time.
pub open spec fn layout() -> Seq<Kind> {
    seq![
        Kind::U32,
        Kind::U16,
        Kind::U16,
        Kind::U32,
        Kind::U32,
        Kind::U32,
        Kind::U32,
        Kind::U32,
        Kind::U32,
        Kind::U32,
        Kind::U32,
        Kind::U32,
        Kind::U32,
        Kind::U32,
        Kind::U32,
        Kind::U32,
        Kind::U32,
        Kind::U32,
        Kind::U32,
        Kind::U32,
        Kind::U32,
        Kind::U32,
        Kind::U32,
        Kind::U32,
        Kind::U32,
        Kind::U32,
        Kind::U32,
        Kind::U32,
        Kind::U32,
        Kind::U32,
        Kind::U32,
        Kind::U32,
        Kind::U32,
        Kind::U32,
        Kind::U32,
        Kind::U32,
        Kind::U32,
        Kind::U32,
        Kind::U32,
        Kind::U32,
        Kind::U32,
        Kind::U32,
        Kind::U32,
        Kind::U32,
        Kind::U32,
        Kind::U32,
        Kind::U32,
        Kind::U32,
        Kind::U32,
        Kind::U32,
        Kind::Bytes(32),
        Kind::U16,
        Kind::U16,
        Kind::U32,
        Kind::Bytes(32),
        Kind::U16,
        Kind::U16,
        Kind::U32,
        Kind::Bytes(32),
        Kind::U16,
        Kind::U16,
        Kind::U32,
        Kind::U32,
    ]
}

fn layout_exec() -> (r: Vec<Kind>)
    ensures
        r@ == layout(),
        size(layout()) == SIZE,
{
    let r = vec![
        Kind::U32,
        Kind::U16,
        Kind::U16,
        Kind::U32,
        Kind::U32,
        Kind::U32,
        Kind::U32,
        Kind::U32,
        Kind::U32,
        Kind::U32,
        Kind::U32,
        Kind::U32,
        Kind::U32,
        Kind::U32,
        Kind::U32,
        Kind::U32,
        Kind::U32,
        Kind::U32,
        Kind::U32,
        Kind::U32,
        Kind::U32,
        Kind::U32,
        Kind::U32,
        Kind::U32,
        Kind::U32,
        Kind::U32,
        Kind::U32,
        Kind::U32,
        Kind::U32,
        Kind::U32,
        Kind::U32,
        Kind::U32,
        Kind::U32,
        Kind::U32,
        Kind::U32,
        Kind::U32,
        Kind::U32,
        Kind::U32,
        Kind::U32,
        Kind::U32,
        Kind::U32,
        Kind::U32,
        Kind::U32,
        Kind::U32,
        Kind::U32,
        Kind::U32,
        Kind::U32,
        Kind::U32,
        Kind::U32,
        Kind::U32,
        Kind::Bytes(32),
        Kind::U16,
        Kind::U16,
        Kind::U32,
        Kind::Bytes(32),
        Kind::U16,
        Kind::U16,
        Kind::U32,
        Kind::Bytes(32),
        Kind::U16,
        Kind::U16,
        Kind::U32,
        Kind::U32,
    ];
    proof {
        assert(r@ =~= layout());
        lemma_layout_size();
    }
    r
}

/// The layout is 320 bytes long.
#[verifier::spinoff_prover]
#[verifier::rlimit(40)]
proof fn lemma_layout_size()
    ensures
        size(layout()) == SIZE,
{
    let a = layout().take(32);
    let b = layout().skip(32);
    assert(layout() =~= a + b);
    crate::record::lemma_size_append(a, b);
    assert(size(a) == 124) by {
        reveal_with_fuel(size, 33);
    }
    assert(size(b) == 196) by {
        reveal_with_fuel(size, 32);
    }
}

/// The vector of fields `i` to `i + 2`.
pub open spec fn vec_at(f: Seq<FieldV>, i: int) -> Vec3 {
    Vec3 { x: w32(f, i), y: w32(f, i + 1), z: w32(f, i + 2) }
}

/// The range of fields `i` and `i + 1`.
pub open spec fn range_at(f: Seq<FieldV>, i: int) -> Range {
    Range { min: w32(f, i), max: w32(f, i + 1) }
}

/// A value present where its flag is set, otherwise stored as zero.
pub open spec fn value_of(set: bool, x: u32) -> Option<Option<u32>> {
    if set {
        Some(Some(x))
    } else if float::is_zero(x) {
        Some(None)
    } else {
        None
    }
}

/// The translation range of the fields, present where marked, otherwise
/// stored as zeros.
pub open spec fn range_part(present: bool, f: Seq<FieldV>) -> Option<Option<TranslationRange>> {
    let tr = TranslationRange {
        xz: range_at(f, 6),
        y: range_at(f, 8),
        initial: range_at(f, 10),
        delta: range_at(f, 12),
    };
    if present {
        Some(Some(tr))
    } else if range_is_zero(tr.xz) && range_is_zero(tr.y) && range_is_zero(tr.initial)
        && range_is_zero(tr.delta) {
        Some(None)
    } else {
        None
    }
}

/// The translation of the fields.
pub open spec fn translation_part(set: bool, f: Seq<FieldV>) -> Option<Option<ObjectMotionTranslation>> {
    let t = ObjectMotionTranslation { initial: vec_at(f, 14), delta: vec_at(f, 17), rnd_xz: vec_at(f, 26) };
    if set {
        Some(Some(t))
    } else if vec3_is_zero(t.initial) && vec3_is_zero(t.delta) && vec3_is_zero(t.rnd_xz) {
        Some(None)
    } else {
        None
    }
}

/// The forward rotation of the fields: over time, over distance with a
/// zero change, or none with zeros.
pub open spec fn forward_part(time: bool, dist: bool, initial: u32, delta: u32) -> Option<Option<ForwardRotation>> {
    if time {
        if dist {
            None
        } else {
            Some(Some(ForwardRotation::Time { initial, delta }))
        }
    } else if dist {
        if float::is_zero(delta) {
            Some(Some(ForwardRotation::Distance { initial }))
        } else {
            None
        }
    } else if float::is_zero(initial) && float::is_zero(delta) {
        Some(None)
    } else {
        None
    }
}

/// The rotation of the fields.
pub open spec fn xyz_part(set: bool, f: Seq<FieldV>) -> Option<Option<ObjectMotionXyzRot>> {
    let r = ObjectMotionXyzRot { initial: vec_at(f, 32), delta: vec_at(f, 35) };
    if set {
        Some(Some(r))
    } else if vec3_is_zero(r.initial) && vec3_is_zero(r.delta) {
        Some(None)
    } else {
        None
    }
}

/// The scaling of the fields.
pub open spec fn scale_part(set: bool, f: Seq<FieldV>) -> Option<Option<ObjectMotionScale>> {
    let s = ObjectMotionScale { initial: vec_at(f, 41), delta: vec_at(f, 44) };
    if set {
        Some(Some(s))
    } else if vec3_is_zero(s.initial) && vec3_is_zero(s.delta) {
        Some(None)
    } else {
        None
    }
}

/// A bounce sequence name: a name where the first byte is not zero, none
/// where all bytes are zero.
pub open spec fn seq_name(b: Seq<u8>) -> Option<Option<Seq<u8>>> {
    if b.len() > 0 && b[0] != 0 {
        match unpad(b) {
            Some(n) => Some(Some(n)),
            None => None,
        }
    } else if all_zero(b) {
        Some(None)
    } else {
        None
    }
}

/// The bounce sequences of the fields: where not set, all names zero.
pub open spec fn sequences_part(set: bool, f: Seq<FieldV>) -> Option<Option<BounceSequences<Seq<u8>>>> {
    if set {
        match (seq_name(wbytes(f, 50)), seq_name(wbytes(f, 54)), seq_name(wbytes(f, 58))) {
            (Some(d), Some(w), Some(l)) => Some(Some(BounceSequences { default: d, water: w, lava: l })),
            _ => None,
        }
    } else if all_zero(wbytes(f, 50)) && all_zero(wbytes(f, 54)) && all_zero(wbytes(f, 58)) {
        Some(None)
    } else {
        None
    }
}

/// One bounce sound: where the index is positive (as an `i16`), a static
/// sound with a positive volume; otherwise none, whatever is stored.
pub open spec fn sound_of(ad: AnimDefV, index: u16, volume: u32) -> Option<Option<BounceSound<Seq<u8>>>> {
    if 0 < index < 0x8000 {
        if !float::lt(float::ZERO, volume) {
            None
        } else {
            match name_at(ad.static_sounds, index as int) {
                Some(n) => Some(Some(BounceSound { name: n, volume })),
                None => None,
            }
        }
    } else {
        Some(None)
    }
}

/// The bounce sounds of the fields: where not set, zero indices and
/// volumes.
pub open spec fn sounds_part(ad: AnimDefV, set: bool, f: Seq<FieldV>) -> Option<Option<BounceSounds<Seq<u8>>>> {
    if set {
        match (
            sound_of(ad, w16(f, 52), w32(f, 53)),
            sound_of(ad, w16(f, 56), w32(f, 57)),
            sound_of(ad, w16(f, 60), w32(f, 61)),
        ) {
            (Some(d), Some(w), Some(l)) => Some(Some(BounceSounds { default: d, water: w, lava: l })),
            _ => None,
        }
    } else if w16(f, 52) == 0 && w16(f, 56) == 0 && w16(f, 60) == 0 && float::is_zero(w32(f, 53))
        && float::is_zero(w32(f, 57)) && float::is_zero(w32(f, 61)) {
        Some(None)
    } else {
        None
    }
}

/// The run time: positive where set, zero otherwise.
pub open spec fn run_time_part(set: bool, x: u32) -> Option<Option<u32>> {
    if set {
        if float::lt(float::ZERO, x) {
            Some(Some(x))
        } else {
            None
        }
    } else if float::is_zero(x) {
        Some(None)
    } else {
        None
    }
}

/// The translation range is marked: both its flags, or for the animations
/// that lack it, the minimum flag alone.
pub open spec fn range_marked(ad: AnimDefV, fl: u32) -> bool {
    bit(fl, TRANSLATION_RANGE_MIN) && (bit(fl, TRANSLATION_RANGE_MAX) || borked(ad))
}

/// The checks that involve no part alone: only the known flags; no
/// gravity flags without gravity; both range flags or neither, unless the
/// range is marked; zero padding, zero current values, and `-1` sequence
/// indices.
pub open spec fn header_ok(ad: AnimDefV, f: Seq<FieldV>) -> bool {
    let fl = w32(f, 0);
    &&& fl < 32768
    &&& !bit(fl, GRAVITY) ==> !bit(fl, GRAVITY_COMPLEX) && !bit(fl, GRAVITY_NO_ALTITUDE)
    &&& !range_marked(ad, fl) ==> !bit(fl, TRANSLATION_RANGE_MIN) && !bit(fl, TRANSLATION_RANGE_MAX)
    &&& w16(f, 2) == 0
    &&& float::is_zero(w32(f, 3))
    &&& vec3_is_zero(vec_at(f, 20))
    &&& vec3_is_zero(vec_at(f, 23))
    &&& float::is_zero(w32(f, 31))
    &&& vec3_is_zero(vec_at(f, 38))
    &&& vec3_is_zero(vec_at(f, 47))
    &&& w16(f, 51) == NO_SEQUENCE
    &&& w16(f, 55) == NO_SEQUENCE
    &&& w16(f, 59) == NO_SEQUENCE
}

/// The event that the fields of a record describe, if they describe one.
pub open spec fn from_fields(ad: AnimDefV, f: Seq<FieldV>) -> Option<ObjectMotion<Seq<u8>>> {
    let fl = w32(f, 0);
    if !header_ok(ad, f) {
        None
    } else {
        match (
            name_at(ad.nodes, w16(f, 1) as int),
            value_of(bit(fl, MORPH), w32(f, 5)),
            value_of(bit(fl, GRAVITY), w32(f, 4)),
            range_part(range_marked(ad, fl), f),
            translation_part(bit(fl, TRANSLATION), f),
            forward_part(bit(fl, FORWARD_ROTATION_TIME), bit(fl, FORWARD_ROTATION_DISTANCE), w32(f, 29), w32(f, 30)),
        ) {
            (Some(node), Some(morph), Some(gravity), Some(translation_range), Some(translation), Some(forward_rotation)) => match (
                xyz_part(bit(fl, XYZ_ROTATION), f),
                scale_part(bit(fl, SCALE), f),
                sequences_part(bit(fl, BOUNCE_SEQUENCE), f),
                sounds_part(ad, bit(fl, BOUNCE_SOUND), f),
                run_time_part(bit(fl, RUN_TIME), w32(f, 62)),
            ) {
                (Some(xyz_rotation), Some(scale), Some(bounce_sequence), Some(bounce_sound), Some(run_time)) => Some(
                    ObjectMotion {
                        node,
                        impact_force: bit(fl, IMPACT_FORCE),
                        morph,
                        gravity: match gravity {
                            Some(g) => Some(
                                Gravity {
                                    value: g,
                                    complex: bit(fl, GRAVITY_COMPLEX),
                                    no_altitude: bit(fl, GRAVITY_NO_ALTITUDE),
                                },
                            ),
                            None => None,
                        },
                        translation_range,
                        translation,
                        forward_rotation,
                        xyz_rotation,
                        scale,
                        bounce_sequence,
                        bounce_sound,
                        run_time,
                    },
                ),
                _ => None,
            },
            _ => None,
        }
    }
}

/// The stored bytes of a bounce sequence name: the padded name, or zeros.
pub open spec fn name_bytes(o: Option<Seq<u8>>) -> Option<Seq<u8>> {
    match o {
        None => Some(zeros(32)),
        Some(n) => pad(n, 32),
    }
}

/// The stored names of the bounce sequences.
pub open spec fn sequence_bytes(b: Option<BounceSequences<Seq<u8>>>) -> Option<(Seq<u8>, Seq<u8>, Seq<u8>)> {
    match b {
        None => Some((zeros(32), zeros(32), zeros(32))),
        Some(x) => match (name_bytes(x.default), name_bytes(x.water), name_bytes(x.lava)) {
            (Some(d), Some(w), Some(l)) => Some((d, w, l)),
            _ => None,
        },
    }
}

/// The stored index and volume of a bounce sound.
pub open spec fn sound_fields(ad: AnimDefV, o: Option<BounceSound<Seq<u8>>>) -> Option<(u16, u32)> {
    match o {
        None => Some((0, 0)),
        Some(x) => match index_of(ad.static_sounds, x.name) {
            Some(i) => Some((i as u16, x.volume)),
            None => None,
        },
    }
}

/// The stored indices and volumes of the bounce sounds.
pub open spec fn sounds_fields(ad: AnimDefV, b: Option<BounceSounds<Seq<u8>>>) -> Option<((u16, u32), (u16, u32), (u16, u32))> {
    match b {
        None => Some(((0, 0), (0, 0), (0, 0))),
        Some(x) => match (sound_fields(ad, x.default), sound_fields(ad, x.water), sound_fields(ad, x.lava)) {
            (Some(d), Some(w), Some(l)) => Some((d, w, l)),
            _ => None,
        },
    }
}

/// The flag word of an event.
pub open spec fn flags_of(ad: AnimDefV, v: ObjectMotion<Seq<u8>>) -> u32 {
    word(
        v.gravity is Some,
        v.impact_force,
        v.translation is Some,
        v.translation_range is Some,
        v.translation_range is Some && !borked(ad),
        v.xyz_rotation is Some,
        v.forward_rotation matches Some(ForwardRotation::Distance { .. }),
        v.forward_rotation matches Some(ForwardRotation::Time { .. }),
        v.scale is Some,
        v.morph is Some,
        v.run_time is Some,
        v.bounce_sequence is Some,
        v.bounce_sound is Some,
        v.gravity matches Some(g) && g.complex,
        v.gravity matches Some(g) && g.no_altitude,
    )
}

/// A stored value, or zero.
pub open spec fn or_zero(o: Option<u32>) -> u32 {
    match o {
        Some(x) => x,
        None => 0,
    }
}

/// The zero vector.
pub open spec fn zero_vec() -> Vec3 {
    Vec3 { x: 0, y: 0, z: 0 }
}

/// The fields of the record of an event, if it can be written.
pub open spec fn to_fields(ad: AnimDefV, v: ObjectMotion<Seq<u8>>) -> Option<Seq<FieldV>> {
    let zr = Range { min: 0, max: 0 };
    let tr = match v.translation_range {
        Some(t) => t,
        None => TranslationRange { xz: zr, y: zr, initial: zr, delta: zr },
    };
    let tl = match v.translation {
        Some(t) => t,
        None => ObjectMotionTranslation { initial: zero_vec(), delta: zero_vec(), rnd_xz: zero_vec() },
    };
    let fwd: (u32, u32) = match v.forward_rotation {
        Some(ForwardRotation::Time { initial, delta }) => (initial, delta),
        Some(ForwardRotation::Distance { initial }) => (initial, 0),
        None => (0, 0),
    };
    let xyz = match v.xyz_rotation {
        Some(r) => r,
        None => ObjectMotionXyzRot { initial: zero_vec(), delta: zero_vec() },
    };
    let sc = match v.scale {
        Some(r) => r,
        None => ObjectMotionScale { initial: zero_vec(), delta: zero_vec() },
    };
    let g: u32 = match v.gravity {
        Some(g) => g.value,
        None => 0,
    };
    match (index_of(ad.nodes, v.node), sequence_bytes(v.bounce_sequence), sounds_fields(ad, v.bounce_sound)) {
        (Some(ni), Some(bs), Some(sn)) => Some(
            seq![
                FieldV::U32(flags_of(ad, v)),
                FieldV::U16(ni as u16),
                FieldV::U16(0),
                FieldV::U32(0),
                FieldV::U32(g),
                FieldV::U32(or_zero(v.morph)),
                FieldV::U32(tr.xz.min),
                FieldV::U32(tr.xz.max),
                FieldV::U32(tr.y.min),
                FieldV::U32(tr.y.max),
                FieldV::U32(tr.initial.min),
                FieldV::U32(tr.initial.max),
                FieldV::U32(tr.delta.min),
                FieldV::U32(tr.delta.max),
                FieldV::U32(tl.initial.x),
                FieldV::U32(tl.initial.y),
                FieldV::U32(tl.initial.z),
                FieldV::U32(tl.delta.x),
                FieldV::U32(tl.delta.y),
                FieldV::U32(tl.delta.z),
                FieldV::U32(zero_vec().x),
                FieldV::U32(zero_vec().y),
                FieldV::U32(zero_vec().z),
                FieldV::U32(zero_vec().x),
                FieldV::U32(zero_vec().y),
                FieldV::U32(zero_vec().z),
                FieldV::U32(tl.rnd_xz.x),
                FieldV::U32(tl.rnd_xz.y),
                FieldV::U32(tl.rnd_xz.z),
                FieldV::U32(fwd.0),
                FieldV::U32(fwd.1),
                FieldV::U32(0),
                FieldV::U32(xyz.initial.x),
                FieldV::U32(xyz.initial.y),
                FieldV::U32(xyz.initial.z),
                FieldV::U32(xyz.delta.x),
                FieldV::U32(xyz.delta.y),
                FieldV::U32(xyz.delta.z),
                FieldV::U32(zero_vec().x),
                FieldV::U32(zero_vec().y),
                FieldV::U32(zero_vec().z),
                FieldV::U32(sc.initial.x),
                FieldV::U32(sc.initial.y),
                FieldV::U32(sc.initial.z),
                FieldV::U32(sc.delta.x),
                FieldV::U32(sc.delta.y),
                FieldV::U32(sc.delta.z),
                FieldV::U32(zero_vec().x),
                FieldV::U32(zero_vec().y),
                FieldV::U32(zero_vec().z),
                FieldV::Bytes(bs.0),
                FieldV::U16(NO_SEQUENCE),
                FieldV::U16(sn.0.0),
                FieldV::U32(sn.0.1),
                FieldV::Bytes(bs.1),
                FieldV::U16(NO_SEQUENCE),
                FieldV::U16(sn.1.0),
                FieldV::U32(sn.1.1),
                FieldV::Bytes(bs.2),
                FieldV::U16(NO_SEQUENCE),
                FieldV::U16(sn.2.0),
                FieldV::U32(sn.2.1),
                FieldV::U32(or_zero(v.run_time)),
            ],
        ),
        _ => None,
    }
}

/// The event that a record holds, if it holds one.
pub open spec fn parse(ad: AnimDefV, s: Seq<u8>) -> Option<ObjectMotion<Seq<u8>>> {
    if s.len() == SIZE {
        from_fields(ad, decode(layout(), s))
    } else {
        None
    }
}

/// The record of an event, if it can be written.
pub open spec fn serialize(ad: AnimDefV, v: ObjectMotion<Seq<u8>>) -> Option<Seq<u8>> {
    match to_fields(ad, v) {
        Some(f) => Some(encode(f)),
        None => None,
    }
}

/// The fields of a record of this layout, by kind.
pub open spec fn fields_ok(f: Seq<Fld>) -> bool {
    &&& f.len() == 63
    &&& conforms_all(fields_view(f), layout())
}

fn vec_at_exec(f: &Vec<Fld>, i: usize) -> (r: Vec3)
    requires
        fields_ok(f@),
        i + 2 < 63,
        layout()[i as int] == Kind::U32,
        layout()[i + 1] == Kind::U32,
        layout()[i + 2] == Kind::U32,
    ensures
        r == vec_at(fields_view(f@), i as int),
{
    assert(conforms(fields_view(f@)[i as int], layout()[i as int]));
    assert(conforms(fields_view(f@)[i + 1], layout()[i + 1]));
    assert(conforms(fields_view(f@)[i + 2], layout()[i + 2]));
    Vec3 { x: get_u32(f, i), y: get_u32(f, i + 1), z: get_u32(f, i + 2) }
}

fn u32_at(f: &Vec<Fld>, i: usize) -> (r: u32)
    requires
        fields_ok(f@),
        i < 63,
        layout()[i as int] == Kind::U32,
    ensures
        r == w32(fields_view(f@), i as int),
{
    assert(conforms(fields_view(f@)[i as int], layout()[i as int]));
    get_u32(f, i)
}

fn u16_at(f: &Vec<Fld>, i: usize) -> (r: u16)
    requires
        fields_ok(f@),
        i < 63,
        layout()[i as int] == Kind::U16,
    ensures
        r == w16(fields_view(f@), i as int),
{
    assert(conforms(fields_view(f@)[i as int], layout()[i as int]));
    get_u16(f, i)
}

fn bytes_at(f: &Vec<Fld>, i: usize) -> (r: &Vec<u8>)
    requires
        fields_ok(f@),
        i < 63,
        layout()[i as int] == Kind::Bytes(32),
    ensures
        r@ == wbytes(fields_view(f@), i as int),
        r@.len() == 32,
{
    assert(conforms(fields_view(f@)[i as int], layout()[i as int]));
    get_bytes(f, i)
}

fn value_of_exec(set: bool, x: u32) -> (r: Result<Option<u32>, Error>)
    ensures
        match value_of(set, x) {
            Some(o) => r == Ok::<Option<u32>, Error>(o),
            None => r == Err::<Option<u32>, Error>(Error::Invalid),
        },
{
    if set {
        Ok(Some(x))
    } else if float::f32_is_zero(x) {
        Ok(None)
    } else {
        Err(Error::Invalid)
    }
}

fn seq_name_exec(b: &Vec<u8>) -> (r: Result<Option<Vec<u8>>, Error>)
    ensures
        match seq_name(b@) {
            Some(o) => r matches Ok(x) && name_view(x) == o,
            None => r == Err::<Option<Vec<u8>>, Error>(Error::Invalid),
        },
{
    if b.len() > 0 && b[0] != 0 {
        match unpad_exec(b) {
            Some(n) => Ok(Some(n)),
            None => Err(Error::Invalid),
        }
    } else if all_zero_exec(b) {
        Ok(None)
    } else {
        Err(Error::Invalid)
    }
}

fn sound_of_exec(ad: &AnimDef, index: u16, volume: u32) -> (r: Result<Option<BounceSound<Vec<u8>>>, Error>)
    ensures
        match sound_of(ad@, index, volume) {
            Some(o) => r matches Ok(x) && sound_view(x) == o,
            None => r == Err::<Option<BounceSound<Vec<u8>>>, Error>(Error::Invalid),
        },
{
    if 0 < index && index < 0x8000 {
        if !float::f32_lt(float::ZERO, volume) {
            return Err(Error::Invalid);
        }
        let n = ad.stc_sound_from_index(index as u32)?;
        Ok(Some(BounceSound { name: n, volume }))
    } else {
        Ok(None)
    }
}

fn header_ok_exec(ad: &AnimDef, f: &Vec<Fld>) -> (r: bool)
    requires
        fields_ok(f@),
    ensures
        r == header_ok(ad@, fields_view(f@)),
{
    let fl = u32_at(f, 0);
    let borked = borked_exec(ad);
    let marked = bit_exec(fl, TRANSLATION_RANGE_MIN) && (bit_exec(fl, TRANSLATION_RANGE_MAX) || borked);
    fl < 32768 && (bit_exec(fl, GRAVITY) || (!bit_exec(fl, GRAVITY_COMPLEX) && !bit_exec(
        fl,
        GRAVITY_NO_ALTITUDE,
    ))) && (marked || (!bit_exec(fl, TRANSLATION_RANGE_MIN) && !bit_exec(
        fl,
        TRANSLATION_RANGE_MAX,
    ))) && u16_at(f, 2) == 0 && float::f32_is_zero(u32_at(f, 3)) && vec3_is_zero_exec(
        vec_at_exec(f, 20),
    ) && vec3_is_zero_exec(vec_at_exec(f, 23)) && float::f32_is_zero(u32_at(f, 31))
        && vec3_is_zero_exec(vec_at_exec(f, 38)) && vec3_is_zero_exec(vec_at_exec(f, 47))
        && u16_at(f, 51) == NO_SEQUENCE && u16_at(f, 55) == NO_SEQUENCE && u16_at(f, 59)
        == NO_SEQUENCE
}

/// Reads an `OBJECT_MOTION` record.
#[verifier::rlimit(40)]
pub fn read(data: &[u8], ad: &AnimDef) -> (r: Result<ObjectMotion<Vec<u8>>, Error>)
    ensures
        match parse(ad@, data@) {
            Some(v) => r matches Ok(x) && x.deep_view() == v,
            None => r == Err::<ObjectMotion<Vec<u8>>, Error>(Error::Invalid),
        },
{
    if data.len() != 320 {
        return Err(Error::Invalid);
    }
    let l = layout_exec();
    let f = decode_record(data, l.as_slice());
    if !header_ok_exec(ad, &f) {
        return Err(Error::Invalid);
    }
    let fl = u32_at(&f, 0);
    let borked = borked_exec(ad);
    let marked = bit_exec(fl, TRANSLATION_RANGE_MIN) && (bit_exec(fl, TRANSLATION_RANGE_MAX) || borked);
    let node = ad.node_from_index(u16_at(&f, 1) as u32)?;
    let morph = value_of_exec(bit_exec(fl, MORPH), u32_at(&f, 5))?;
    let gravity_value = value_of_exec(bit_exec(fl, GRAVITY), u32_at(&f, 4))?;
    let tr = TranslationRange {
        xz: Range { min: u32_at(&f, 6), max: u32_at(&f, 7) },
        y: Range { min: u32_at(&f, 8), max: u32_at(&f, 9) },
        initial: Range { min: u32_at(&f, 10), max: u32_at(&f, 11) },
        delta: Range { min: u32_at(&f, 12), max: u32_at(&f, 13) },
    };
    let translation_range = if marked {
        Some(tr)
    } else if range_is_zero_exec(tr.xz) && range_is_zero_exec(tr.y) && range_is_zero_exec(
        tr.initial,
    ) && range_is_zero_exec(tr.delta) {
        None
    } else {
        return Err(Error::Invalid);
    };
    let tl = ObjectMotionTranslation {
        initial: vec_at_exec(&f, 14),
        delta: vec_at_exec(&f, 17),
        rnd_xz: vec_at_exec(&f, 26),
    };
    let translation = if bit_exec(fl, TRANSLATION) {
        Some(tl)
    } else if vec3_is_zero_exec(tl.initial) && vec3_is_zero_exec(tl.delta) && vec3_is_zero_exec(
        tl.rnd_xz,
    ) {
        None
    } else {
        return Err(Error::Invalid);
    };
    let fwd_initial = u32_at(&f, 29);
    let fwd_delta = u32_at(&f, 30);
    let forward_rotation = if bit_exec(fl, FORWARD_ROTATION_TIME) {
        if bit_exec(fl, FORWARD_ROTATION_DISTANCE) {
            return Err(Error::Invalid);
        }
        Some(ForwardRotation::Time { initial: fwd_initial, delta: fwd_delta })
    } else if bit_exec(fl, FORWARD_ROTATION_DISTANCE) {
        if !float::f32_is_zero(fwd_delta) {
            return Err(Error::Invalid);
        }
        Some(ForwardRotation::Distance { initial: fwd_initial })
    } else if float::f32_is_zero(fwd_initial) && float::f32_is_zero(fwd_delta) {
        None
    } else {
        return Err(Error::Invalid);
    };
    let xyz = ObjectMotionXyzRot { initial: vec_at_exec(&f, 32), delta: vec_at_exec(&f, 35) };
    let xyz_rotation = if bit_exec(fl, XYZ_ROTATION) {
        Some(xyz)
    } else if vec3_is_zero_exec(xyz.initial) && vec3_is_zero_exec(xyz.delta) {
        None
    } else {
        return Err(Error::Invalid);
    };
    let sc = ObjectMotionScale { initial: vec_at_exec(&f, 41), delta: vec_at_exec(&f, 44) };
    let scale = if bit_exec(fl, SCALE) {
        Some(sc)
    } else if vec3_is_zero_exec(sc.initial) && vec3_is_zero_exec(sc.delta) {
        None
    } else {
        return Err(Error::Invalid);
    };
    let b0 = bytes_at(&f, 50);
    let b1 = bytes_at(&f, 54);
    let b2 = bytes_at(&f, 58);
    let bounce_sequence = if bit_exec(fl, BOUNCE_SEQUENCE) {
        let d = seq_name_exec(b0)?;
        let w = seq_name_exec(b1)?;
        let la = seq_name_exec(b2)?;
        Some(BounceSequences { default: d, water: w, lava: la })
    } else if all_zero_exec(b0) && all_zero_exec(b1) && all_zero_exec(b2) {
        None
    } else {
        return Err(Error::Invalid);
    };
    let i0 = u16_at(&f, 52);
    let v0 = u32_at(&f, 53);
    let i1 = u16_at(&f, 56);
    let v1 = u32_at(&f, 57);
    let i2 = u16_at(&f, 60);
    let v2 = u32_at(&f, 61);
    let bounce_sound = if bit_exec(fl, BOUNCE_SOUND) {
        let d = sound_of_exec(ad, i0, v0)?;
        let w = sound_of_exec(ad, i1, v1)?;
        let la = sound_of_exec(ad, i2, v2)?;
        Some(BounceSounds { default: d, water: w, lava: la })
    } else if i0 == 0 && i1 == 0 && i2 == 0 && float::f32_is_zero(v0) && float::f32_is_zero(v1)
        && float::f32_is_zero(v2) {
        None
    } else {
        return Err(Error::Invalid);
    };
    let rt = u32_at(&f, 62);
    let run_time = if bit_exec(fl, RUN_TIME) {
        if !float::f32_lt(float::ZERO, rt) {
            return Err(Error::Invalid);
        }
        Some(rt)
    } else if float::f32_is_zero(rt) {
        None
    } else {
        return Err(Error::Invalid);
    };
    let gravity = match gravity_value {
        Some(g) => Some(
            Gravity {
                value: g,
                complex: bit_exec(fl, GRAVITY_COMPLEX),
                no_altitude: bit_exec(fl, GRAVITY_NO_ALTITUDE),
            },
        ),
        None => None,
    };
    Ok(
        ObjectMotion {
            node,
            impact_force: bit_exec(fl, IMPACT_FORCE),
            morph,
            gravity,
            translation_range,
            translation,
            forward_rotation,
            xyz_rotation,
            scale,
            bounce_sequence,
            bounce_sound,
            run_time,
        },
    )
}

fn name_bytes_exec(o: &Option<Vec<u8>>) -> (r: Result<Vec<u8>, Error>)
    ensures
        match name_bytes(name_view(*o)) {
            Some(b) => r matches Ok(x) && x@ == b,
            None => r == Err::<Vec<u8>, Error>(Error::Invalid),
        },
{
    match o {
        None => Ok(zeros_exec(32)),
        Some(n) => match pad_exec(n, 32) {
            Some(b) => Ok(b),
            None => Err(Error::Invalid),
        },
    }
}

fn sound_fields_exec(ad: &AnimDef, o: &Option<BounceSound<Vec<u8>>>) -> (r: Result<(u16, u32), Error>)
    ensures
        match sound_fields(ad@, sound_view(*o)) {
            Some(x) => r == Ok::<(u16, u32), Error>(x),
            None => r == Err::<(u16, u32), Error>(Error::Invalid),
        },
{
    match o {
        None => Ok((0, 0)),
        Some(x) => {
            let i = ad.stc_sound_to_index(&x.name)?;
            Ok((i, x.volume))
        },
    }
}

/// Writes an `OBJECT_MOTION` record.
#[verifier::spinoff_prover]
#[verifier::rlimit(100)]
pub fn write(v: &ObjectMotion<Vec<u8>>, ad: &AnimDef, out: &mut Vec<u8>) -> (r: Result<(), Error>)
    ensures
        match serialize(ad@, v.deep_view()) {
            Some(b) => r is Ok && final(out)@ == old(out)@ + b,
            None => r == Err::<(), Error>(Error::Invalid) && final(out)@ == old(out)@,
        },
{
    let ni = ad.node_to_index(&v.node)?;
    let (bs0, bs1, bs2) = match &v.bounce_sequence {
        None => (zeros_exec(32), zeros_exec(32), zeros_exec(32)),
        Some(b) => {
            let d = name_bytes_exec(&b.default)?;
            let w = name_bytes_exec(&b.water)?;
            let la = name_bytes_exec(&b.lava)?;
            (d, w, la)
        },
    };
    let (sn0, sn1, sn2) = match &v.bounce_sound {
        None => ((0u16, 0u32), (0u16, 0u32), (0u16, 0u32)),
        Some(b) => {
            let d = sound_fields_exec(ad, &b.default)?;
            let w = sound_fields_exec(ad, &b.water)?;
            let la = sound_fields_exec(ad, &b.lava)?;
            (d, w, la)
        },
    };
    let borked = borked_exec(ad);
    let (fwd_time, fwd_dist, fwd0, fwd1): (bool, bool, u32, u32) = match v.forward_rotation {
        Some(ForwardRotation::Time { initial, delta }) => (true, false, initial, delta),
        Some(ForwardRotation::Distance { initial }) => (false, true, initial, 0),
        None => (false, false, 0, 0),
    };
    let (has_g, g, gc, gn): (bool, u32, bool, bool) = match v.gravity {
        Some(x) => (true, x.value, x.complex, x.no_altitude),
        None => (false, 0, false, false),
    };
    let fl = word_exec(
        has_g,
        v.impact_force,
        v.translation.is_some(),
        v.translation_range.is_some(),
        v.translation_range.is_some() && !borked,
        v.xyz_rotation.is_some(),
        fwd_dist,
        fwd_time,
        v.scale.is_some(),
        v.morph.is_some(),
        v.run_time.is_some(),
        v.bounce_sequence.is_some(),
        v.bounce_sound.is_some(),
        gc,
        gn,
    );
    let zr = Range { min: 0, max: 0 };
    let zv = Vec3 { x: 0, y: 0, z: 0 };
    let tr = match v.translation_range {
        Some(t) => t,
        None => TranslationRange { xz: zr, y: zr, initial: zr, delta: zr },
    };
    let tl = match v.translation {
        Some(t) => t,
        None => ObjectMotionTranslation { initial: zv, delta: zv, rnd_xz: zv },
    };
    let xyz = match v.xyz_rotation {
        Some(r) => r,
        None => ObjectMotionXyzRot { initial: zv, delta: zv },
    };
    let sc = match v.scale {
        Some(r) => r,
        None => ObjectMotionScale { initial: zv, delta: zv },
    };
    let morph: u32 = match v.morph {
        Some(m) => m,
        None => 0,
    };
    let rt: u32 = match v.run_time {
        Some(m) => m,
        None => 0,
    };
    let fs = vec![
        Fld::U32(fl),
        Fld::U16(ni),
        Fld::U16(0),
        Fld::U32(0),
        Fld::U32(g),
        Fld::U32(morph),
        Fld::U32(tr.xz.min),
        Fld::U32(tr.xz.max),
        Fld::U32(tr.y.min),
        Fld::U32(tr.y.max),
        Fld::U32(tr.initial.min),
        Fld::U32(tr.initial.max),
        Fld::U32(tr.delta.min),
        Fld::U32(tr.delta.max),
        Fld::U32(tl.initial.x),
        Fld::U32(tl.initial.y),
        Fld::U32(tl.initial.z),
        Fld::U32(tl.delta.x),
        Fld::U32(tl.delta.y),
        Fld::U32(tl.delta.z),
        Fld::U32(zv.x),
        Fld::U32(zv.y),
        Fld::U32(zv.z),
        Fld::U32(zv.x),
        Fld::U32(zv.y),
        Fld::U32(zv.z),
        Fld::U32(tl.rnd_xz.x),
        Fld::U32(tl.rnd_xz.y),
        Fld::U32(tl.rnd_xz.z),
        Fld::U32(fwd0),
        Fld::U32(fwd1),
        Fld::U32(0),
        Fld::U32(xyz.initial.x),
        Fld::U32(xyz.initial.y),
        Fld::U32(xyz.initial.z),
        Fld::U32(xyz.delta.x),
        Fld::U32(xyz.delta.y),
        Fld::U32(xyz.delta.z),
        Fld::U32(zv.x),
        Fld::U32(zv.y),
        Fld::U32(zv.z),
        Fld::U32(sc.initial.x),
        Fld::U32(sc.initial.y),
        Fld::U32(sc.initial.z),
        Fld::U32(sc.delta.x),
        Fld::U32(sc.delta.y),
        Fld::U32(sc.delta.z),
        Fld::U32(zv.x),
        Fld::U32(zv.y),
        Fld::U32(zv.z),
        Fld::Bytes(bs0),
        Fld::U16(NO_SEQUENCE),
        Fld::U16(sn0.0),
        Fld::U32(sn0.1),
        Fld::Bytes(bs1),
        Fld::U16(NO_SEQUENCE),
        Fld::U16(sn1.0),
        Fld::U32(sn1.1),
        Fld::Bytes(bs2),
        Fld::U16(NO_SEQUENCE),
        Fld::U16(sn2.0),
        Fld::U32(sn2.1),
        Fld::U32(rt),
    ];
    proof {
        assert(fields_view(fs@) =~= to_fields(ad@, v.deep_view()).unwrap());
    }
    encode_record(&fs, out);
    Ok(())
}

/// A bounce sequence name that was read is written as the bytes it was
/// read from.
proof fn lemma_seq_name(b: Seq<u8>)
    requires
        b.len() == 32,
        seq_name(b) is Some,
    ensures
        name_bytes(seq_name(b).unwrap()) == Some(b),
{
    if b[0] != 0 {
        lemma_pad_unpad(b);
    } else {
        assert(zeros(32) =~= b);
    }
}

/// A bounce sound that was read is written with an index and volume that
/// read back as the same sound.
proof fn lemma_sound(ad: AnimDefV, index: u16, volume: u32)
    requires
        sound_of(ad, index, volume) is Some,
    ensures
        sound_fields(ad, sound_of(ad, index, volume).unwrap()) matches Some(x) && sound_of(ad, x.0, x.1)
            == sound_of(ad, index, volume),
{
    if 0 < index < 0x8000 {
        lemma_name_reread(ad.static_sounds, index as int);
    }
}

/// A bounce sequence name that can be written and read back.
pub open spec fn name_ok(o: Option<Seq<u8>>) -> bool {
    match o {
        None => true,
        Some(n) => pad(n, 32) is Some && n.len() > 0,
    }
}

/// A bounce sound that can be written and read back.
pub open spec fn sound_ok(ad: AnimDefV, o: Option<BounceSound<Seq<u8>>>) -> bool {
    match o {
        None => true,
        Some(x) => index_of(ad.static_sounds, x.name) is Some && float::lt(float::ZERO, x.volume),
    }
}

/// An event that can be written and reads back as itself.
pub open spec fn writable(ad: AnimDefV, v: ObjectMotion<Seq<u8>>) -> bool {
    &&& index_of(ad.nodes, v.node) is Some
    &&& v.bounce_sequence matches Some(b) ==> name_ok(b.default) && name_ok(b.water) && name_ok(b.lava)
    &&& v.bounce_sound matches Some(b) ==> sound_ok(ad, b.default) && sound_ok(ad, b.water) && sound_ok(ad, b.lava)
    &&& v.run_time matches Some(r) ==> float::lt(float::ZERO, r)
}

/// A name that can be written reads back from its bytes.
proof fn lemma_name_ok(o: Option<Seq<u8>>)
    requires
        name_ok(o),
    ensures
        name_bytes(o) matches Some(b) && b.len() == 32 && seq_name(b) == Some(o),
{
    match o {
        None => {
            assert(all_zero(zeros(32)));
        },
        Some(n) => {
            lemma_unpad_pad(n, 32);
            let b = pad(n, 32).unwrap();
            assert(b[0] == n[0]);
            assert(crate::text::name_byte(n[0]));
        },
    }
}

/// A sound that can be written reads back from its index and volume.
proof fn lemma_sound_ok(ad: AnimDefV, o: Option<BounceSound<Seq<u8>>>)
    requires
        sound_ok(ad, o),
    ensures
        sound_fields(ad, o) matches Some(x) && sound_of(ad, x.0, x.1) == Some(o),
{
    if let Some(x) = o {
        crate::anim_def::lemma_name_at_index_of(ad.static_sounds, x.name);
    }
}

/// The parts of the fields of a writable event are the event's parts.
#[verifier::spinoff_prover]
#[verifier::rlimit(100)]
proof fn lemma_parts(ad: AnimDefV, v: ObjectMotion<Seq<u8>>, g: Seq<FieldV>)
    requires
        writable(ad, v),
        to_fields(ad, v) == Some(g),
    ensures
        header_ok(ad, g),
        range_marked(ad, w32(g, 0)) == (v.translation_range is Some),
        name_at(ad.nodes, w16(g, 1) as int) == Some(v.node),
        value_of(bit(w32(g, 0), MORPH), w32(g, 5)) == Some(v.morph),
        range_part(range_marked(ad, w32(g, 0)), g) == Some(v.translation_range),
        translation_part(bit(w32(g, 0), TRANSLATION), g) == Some(v.translation),
        forward_part(
            bit(w32(g, 0), FORWARD_ROTATION_TIME),
            bit(w32(g, 0), FORWARD_ROTATION_DISTANCE),
            w32(g, 29),
            w32(g, 30),
        ) == Some(v.forward_rotation),
        xyz_part(bit(w32(g, 0), XYZ_ROTATION), g) == Some(v.xyz_rotation),
        scale_part(bit(w32(g, 0), SCALE), g) == Some(v.scale),
        run_time_part(bit(w32(g, 0), RUN_TIME), w32(g, 62)) == Some(v.run_time),
        bit(w32(g, 0), IMPACT_FORCE) == v.impact_force,
        value_of(bit(w32(g, 0), GRAVITY), w32(g, 4)) == (match v.gravity {
            Some(x) => Some(Some(x.value)),
            None => Some(None),
        }),
        v.gravity matches Some(x) ==> x.complex == bit(w32(g, 0), GRAVITY_COMPLEX) && x.no_altitude
            == bit(w32(g, 0), GRAVITY_NO_ALTITUDE),
        bit(w32(g, 0), BOUNCE_SEQUENCE) == (v.bounce_sequence is Some),
        bit(w32(g, 0), BOUNCE_SOUND) == (v.bounce_sound is Some),
{
    crate::anim_def::lemma_name_at_index_of(ad.nodes, v.node);
    lemma_word(
        v.gravity is Some,
        v.impact_force,
        v.translation is Some,
        v.translation_range is Some,
        v.translation_range is Some && !borked(ad),
        v.xyz_rotation is Some,
        v.forward_rotation matches Some(ForwardRotation::Distance { .. }),
        v.forward_rotation matches Some(ForwardRotation::Time { .. }),
        v.scale is Some,
        v.morph is Some,
        v.run_time is Some,
        v.bounce_sequence is Some,
        v.bounce_sound is Some,
        v.gravity matches Some(g) && g.complex,
        v.gravity matches Some(g) && g.no_altitude,
    );
}

/// The bounce parts of the fields of a writable event are the event's.
#[verifier::spinoff_prover]
#[verifier::rlimit(100)]
proof fn lemma_bounce_parts(ad: AnimDefV, v: ObjectMotion<Seq<u8>>, g: Seq<FieldV>, set_seq: bool, set_snd: bool)
    requires
        writable(ad, v),
        to_fields(ad, v) == Some(g),
        set_seq == (v.bounce_sequence is Some),
        set_snd == (v.bounce_sound is Some),
    ensures
        sequences_part(set_seq, g) == Some(v.bounce_sequence),
        sounds_part(ad, set_snd, g) == Some(v.bounce_sound),
{
    if let Some(b) = v.bounce_sequence {
        lemma_name_ok(b.default);
        lemma_name_ok(b.water);
        lemma_name_ok(b.lava);
    } else {
        assert(all_zero(zeros(32)));
    }
    if let Some(b) = v.bounce_sound {
        lemma_sound_ok(ad, b.default);
        lemma_sound_ok(ad, b.water);
        lemma_sound_ok(ad, b.lava);
    }
}

/// A writable event reads back from its fields.
#[verifier::spinoff_prover]
#[verifier::rlimit(100)]
proof fn lemma_from_to_fields(ad: AnimDefV, v: ObjectMotion<Seq<u8>>)
    requires
        writable(ad, v),
    ensures
        to_fields(ad, v) matches Some(g) && from_fields(ad, g) == Some(v),
{
    crate::anim_def::lemma_name_at_index_of(ad.nodes, v.node);
    if let Some(b) = v.bounce_sequence {
        lemma_name_ok(b.default);
        lemma_name_ok(b.water);
        lemma_name_ok(b.lava);
    }
    if let Some(b) = v.bounce_sound {
        lemma_sound_ok(ad, b.default);
        lemma_sound_ok(ad, b.water);
        lemma_sound_ok(ad, b.lava);
    }
    let g = to_fields(ad, v).unwrap();
    lemma_parts(ad, v, g);
    lemma_bounce_parts(ad, v, g, v.bounce_sequence is Some, v.bounce_sound is Some);
}

/// An event that was read can be written.
proof fn lemma_read_writable(ad: AnimDefV, s: Seq<u8>)
    requires
        parse(ad, s) is Some,
    ensures
        writable(ad, parse(ad, s).unwrap()),
{
    let f = decode(layout(), s);
    lemma_layout_size();
    lemma_decode_conforms(layout(), s);
    assert(conforms(f[50], layout()[50]));
    assert(conforms(f[54], layout()[54]));
    assert(conforms(f[58], layout()[58]));
    let fl = w32(f, 0);
    lemma_name_reread(ad.nodes, w16(f, 1) as int);
    if bit(fl, BOUNCE_SEQUENCE) {
        lemma_seq_name(wbytes(f, 50));
        lemma_seq_name(wbytes(f, 54));
        lemma_seq_name(wbytes(f, 58));
    }
    if bit(fl, BOUNCE_SOUND) {
        lemma_sound(ad, w16(f, 52), w32(f, 53));
        lemma_sound(ad, w16(f, 56), w32(f, 57));
        lemma_sound(ad, w16(f, 60), w32(f, 61));
    }
}

/// Writing an event that was read, then reading it again, gives the same
/// event.
pub proof fn lemma_reread(ad: AnimDefV, s: Seq<u8>)
    requires
        parse(ad, s) is Some,
    ensures
        serialize(ad, parse(ad, s).unwrap()) matches Some(b) && parse(ad, b) == parse(ad, s),
{
    let v = parse(ad, s).unwrap();
    lemma_read_writable(ad, s);
    lemma_from_to_fields(ad, v);
    let g = to_fields(ad, v).unwrap();
    lemma_layout_size();
    lemma_to_fields_conforms(ad, v, g);
    lemma_decode_encode(g, layout());
    lemma_encode_size(g, layout());
    assert(serialize(ad, v) == Some(encode(g)));
}

/// The fields of an event have the kinds of the layout.
#[verifier::spinoff_prover]
#[verifier::rlimit(100)]
proof fn lemma_to_fields_conforms(ad: AnimDefV, v: ObjectMotion<Seq<u8>>, g: Seq<FieldV>)
    requires
        to_fields(ad, v) == Some(g),
        name_ok(match v.bounce_sequence { Some(b) => b.default, None => None }),
        name_ok(match v.bounce_sequence { Some(b) => b.water, None => None }),
        name_ok(match v.bounce_sequence { Some(b) => b.lava, None => None }),
    ensures
        conforms_all(g, layout()),
{
    if let Some(b) = v.bounce_sequence {
        lemma_name_ok(b.default);
        lemma_name_ok(b.water);
        lemma_name_ok(b.lava);
    }
    assert forall|k: int| 0 <= k < g.len() implies conforms(#[trigger] g[k], layout()[k]) by {}
}

/// A record that is written has the record's size.
pub proof fn lemma_written_size(ad: AnimDefV, v: ObjectMotion<Seq<u8>>)
    requires
        serialize(ad, v) is Some,
    ensures
        serialize(ad, v).unwrap().len() == SIZE,
{
    let g = to_fields(ad, v).unwrap();
    lemma_layout_size();
    assert forall|k: int| 0 <= k < g.len() implies conforms(#[trigger] g[k], layout()[k]) by {}
    assert(conforms_all(g, layout()));
    lemma_encode_size(g, layout());
}

/// A flag word of the fifteen known bits is the word of its bits.
pub(crate) proof fn lemma_word_rebuild(x: u32)
    by (bit_vector)
    requires
        x < 32768,
    ensures
        x == word(bit(x, 0), bit(x, 1), bit(x, 2), bit(x, 3), bit(x, 4), bit(x, 5), bit(x, 6), bit(x, 7), bit(x, 8), bit(x, 9), bit(x, 10), bit(x, 11), bit(x, 12), bit(x, 13), bit(x, 14)),
{
}

/// A bounce sound slot is written back exactly: a sound, or an index and a
/// volume that are both zero.
pub open spec fn sound_slot_exact(index: u16, volume: u32) -> bool {
    (0 < index < 0x8000) || (index == 0 && volume == 0)
}

/// The record is written back exactly as read: for the animations that
/// lack the range's maximum flag, the flag is not stored; the values that
/// are only checked to be zero, and the parts whose flags are not set, have
/// no `-0.0`; and each slot of bounce sounds holds a sound or zeros.
pub open spec fn exact_record(ad: AnimDefV, s: Seq<u8>) -> bool {
    let f = decode(layout(), s);
    let fl = w32(f, 0);
    &&& borked(ad) ==> !bit(fl, TRANSLATION_RANGE_MAX)
    &&& w32(f, 3) != float::NEG_ZERO && w32(f, 31) != float::NEG_ZERO
    &&& vec3_no_neg_zero(vec_at(f, 20)) && vec3_no_neg_zero(vec_at(f, 23))
    &&& vec3_no_neg_zero(vec_at(f, 38)) && vec3_no_neg_zero(vec_at(f, 47))
    &&& !bit(fl, MORPH) ==> w32(f, 5) != float::NEG_ZERO
    &&& !bit(fl, GRAVITY) ==> w32(f, 4) != float::NEG_ZERO
    &&& !range_marked(ad, fl) ==> range_no_neg_zero(range_at(f, 6)) && range_no_neg_zero(
        range_at(f, 8),
    ) && range_no_neg_zero(range_at(f, 10)) && range_no_neg_zero(range_at(f, 12))
    &&& !bit(fl, TRANSLATION) ==> vec3_no_neg_zero(vec_at(f, 14)) && vec3_no_neg_zero(vec_at(f, 17))
        && vec3_no_neg_zero(vec_at(f, 26))
    &&& !bit(fl, FORWARD_ROTATION_TIME) ==> w32(f, 30) != float::NEG_ZERO
    &&& !bit(fl, FORWARD_ROTATION_TIME) && !bit(fl, FORWARD_ROTATION_DISTANCE) ==> w32(f, 29) != float::NEG_ZERO
    &&& !bit(fl, XYZ_ROTATION) ==> vec3_no_neg_zero(vec_at(f, 32)) && vec3_no_neg_zero(vec_at(f, 35))
    &&& !bit(fl, SCALE) ==> vec3_no_neg_zero(vec_at(f, 41)) && vec3_no_neg_zero(vec_at(f, 44))
    &&& bit(fl, BOUNCE_SOUND) ==> sound_slot_exact(w16(f, 52), w32(f, 53)) && sound_slot_exact(
        w16(f, 56),
        w32(f, 57),
    ) && sound_slot_exact(w16(f, 60), w32(f, 61))
    &&& !bit(fl, BOUNCE_SOUND) ==> w32(f, 53) != float::NEG_ZERO && w32(f, 57) != float::NEG_ZERO && w32(f, 61) != float::NEG_ZERO
    &&& !bit(fl, RUN_TIME) ==> w32(f, 62) != float::NEG_ZERO
}

/// A bounce sequence name that was read is stored as it was.
proof fn lemma_seq_name_exact(b: Seq<u8>)
    requires
        b.len() == 32,
        seq_name(b) is Some,
    ensures
        name_bytes(seq_name(b).unwrap()) == Some(b),
{
    if b[0] != 0 {
        crate::text::lemma_pad_unpad(b);
    } else {
        assert(b =~= zeros(32));
    }
}

/// Writing the event of a record gives the record back, where the nodes and the
/// static sounds of the definition are distinct and the record is written back
/// exactly.
#[verifier::spinoff_prover]
#[verifier::rlimit(100)]
pub proof fn lemma_exact(ad: AnimDefV, s: Seq<u8>)
    requires
        parse(ad, s) is Some,
        crate::anim_def::unique_names(ad.nodes),
        crate::anim_def::unique_names(ad.static_sounds),
        exact_record(ad, s),
    ensures
        serialize(ad, parse(ad, s).unwrap()) == Some(s),
{
    let f = decode(layout(), s);
    lemma_layout_size();
    lemma_decode_conforms(layout(), s);
    lemma_encode_decode(layout(), s);
    lemma_conforming_fields(f, layout());
    let fl = w32(f, 0);
    lemma_word_rebuild(fl);
    lemma_index_of_name_at(ad.nodes, w16(f, 1) as int);
    if bit(fl, BOUNCE_SOUND) {
        if 0 < w16(f, 52) < 0x8000 {
            lemma_index_of_name_at(ad.static_sounds, w16(f, 52) as int);
        }
        if 0 < w16(f, 56) < 0x8000 {
            lemma_index_of_name_at(ad.static_sounds, w16(f, 56) as int);
        }
        if 0 < w16(f, 60) < 0x8000 {
            lemma_index_of_name_at(ad.static_sounds, w16(f, 60) as int);
        }
    }
    if bit(fl, BOUNCE_SEQUENCE) {
        lemma_seq_name_exact(wbytes(f, 50));
        lemma_seq_name_exact(wbytes(f, 54));
        lemma_seq_name_exact(wbytes(f, 58));
    } else {
        assert(wbytes(f, 50) =~= zeros(32));
        assert(wbytes(f, 54) =~= zeros(32));
        assert(wbytes(f, 58) =~= zeros(32));
    }
    assert(to_fields(ad, parse(ad, s).unwrap()).unwrap() =~= f);
}


/// The offset of the first six fields of the record.
proof fn lemma_head_offsets()
    ensures
        size(layout().take(0)) == 0,
        size(layout().take(1)) == 4,
        size(layout().take(4)) == 12,
        size(layout().take(5)) == 16,
{
    reveal_with_fuel(size, 6);
    assert(layout().take(0) =~= Seq::<Kind>::empty());
    assert(layout().take(1) =~= seq![Kind::U32]);
    assert(layout().take(4) =~= seq![Kind::U32, Kind::U16, Kind::U16, Kind::U32]);
    assert(layout().take(5) =~= seq![Kind::U32, Kind::U16, Kind::U16, Kind::U32, Kind::U32]);
}

/// An event read from a record follows the record's flag word, the four
/// bytes at offset 0, little-endian: the impact force is its bit
/// `IMPACT_FORCE`; gravity, morph, translation, rotation about the axes,
/// scale, bounce sequences and sounds and run time are present exactly where
/// their bits are set; a gravity is complex or keeps no altitude by its own
/// bits; a forward rotation is over time or over distance by theirs. The
/// node is the one the two-byte number at offset 4 refers to; the gravity
/// and the morph are the numbers at offsets 12 and 16.
pub proof fn lemma_flags_read(ad: AnimDefV, s: Seq<u8>)
    requires
        parse(ad, s) is Some,
    ensures
        ({
            let v = parse(ad, s).unwrap();
            let fl = crate::record::le32_at(s, 0);
            &&& v.impact_force == bit(fl, IMPACT_FORCE)
            &&& (v.gravity is Some) == bit(fl, GRAVITY)
            &&& (v.morph is Some) == bit(fl, MORPH)
            &&& (v.translation is Some) == bit(fl, TRANSLATION)
            &&& (v.xyz_rotation is Some) == bit(fl, XYZ_ROTATION)
            &&& (v.scale is Some) == bit(fl, SCALE)
            &&& (v.bounce_sequence is Some) == bit(fl, BOUNCE_SEQUENCE)
            &&& (v.bounce_sound is Some) == bit(fl, BOUNCE_SOUND)
            &&& (v.run_time is Some) == bit(fl, RUN_TIME)
            &&& (v.forward_rotation matches Some(ForwardRotation::Time { .. })) == bit(
                fl,
                FORWARD_ROTATION_TIME,
            )
            &&& (v.forward_rotation matches Some(ForwardRotation::Distance { .. })) == bit(
                fl,
                FORWARD_ROTATION_DISTANCE,
            )
            &&& v.gravity matches Some(g) ==> g.complex == bit(fl, GRAVITY_COMPLEX) && g.no_altitude
                == bit(fl, GRAVITY_NO_ALTITUDE) && g.value == crate::record::le32_at(s, 12)
            &&& v.morph matches Some(m) ==> m == crate::record::le32_at(s, 16)
            &&& name_at(ad.nodes, crate::record::le16_at(s, 4) as int) == Some(v.node)
        }),
{
    lemma_layout_size();
    lemma_head_offsets();
    crate::record::lemma_numbers_at(layout(), s, 0);
    crate::record::lemma_numbers_at(layout(), s, 1);
    crate::record::lemma_numbers_at(layout(), s, 4);
    crate::record::lemma_numbers_at(layout(), s, 5);
}

/// The record written for an event holds in its flag word, the four bytes
/// at offset 0, little-endian, the impact force at bit `IMPACT_FORCE`, and
/// each part's bit set exactly where the part is present; at offset 4 the
/// index of its node, and at offsets 12 and 16 its gravity and morph, or
/// zero.
pub proof fn lemma_flags_written(ad: AnimDefV, v: ObjectMotion<Seq<u8>>)
    requires
        serialize(ad, v) is Some,
    ensures
        ({
            let b = serialize(ad, v).unwrap();
            let fl = crate::record::le32_at(b, 0);
            &&& bit(fl, IMPACT_FORCE) == v.impact_force
            &&& bit(fl, GRAVITY) == (v.gravity is Some)
            &&& bit(fl, MORPH) == (v.morph is Some)
            &&& bit(fl, TRANSLATION) == (v.translation is Some)
            &&& bit(fl, XYZ_ROTATION) == (v.xyz_rotation is Some)
            &&& bit(fl, SCALE) == (v.scale is Some)
            &&& bit(fl, BOUNCE_SEQUENCE) == (v.bounce_sequence is Some)
            &&& bit(fl, BOUNCE_SOUND) == (v.bounce_sound is Some)
            &&& bit(fl, RUN_TIME) == (v.run_time is Some)
            &&& bit(fl, FORWARD_ROTATION_TIME) == (v.forward_rotation matches Some(
                ForwardRotation::Time { .. },
            ))
            &&& bit(fl, FORWARD_ROTATION_DISTANCE) == (v.forward_rotation matches Some(
                ForwardRotation::Distance { .. },
            ))
            &&& bit(fl, GRAVITY_COMPLEX) == (v.gravity matches Some(g) && g.complex)
            &&& bit(fl, GRAVITY_NO_ALTITUDE) == (v.gravity matches Some(g) && g.no_altitude)
            &&& crate::record::le16_at(b, 4) == index_of(ad.nodes, v.node).unwrap() as u16
            &&& crate::record::le32_at(b, 12) == (match v.gravity {
                Some(g) => g.value,
                None => 0u32,
            })
            &&& crate::record::le32_at(b, 16) == or_zero(v.morph)
        }),
{
    let g = to_fields(ad, v).unwrap();
    lemma_layout_size();
    lemma_head_offsets();
    assert forall|k: int| 0 <= k < g.len() implies conforms(#[trigger] g[k], layout()[k]) by {}
    assert(conforms_all(g, layout()));
    crate::record::lemma_numbers_written(g, layout(), 0);
    crate::record::lemma_numbers_written(g, layout(), 1);
    crate::record::lemma_numbers_written(g, layout(), 4);
    crate::record::lemma_numbers_written(g, layout(), 5);
    lemma_word(
        v.gravity is Some,
        v.impact_force,
        v.translation is Some,
        v.translation_range is Some,
        v.translation_range is Some && !borked(ad),
        v.xyz_rotation is Some,
        v.forward_rotation matches Some(ForwardRotation::Distance { .. }),
        v.forward_rotation matches Some(ForwardRotation::Time { .. }),
        v.scale is Some,
        v.morph is Some,
        v.run_time is Some,
        v.bounce_sequence is Some,
        v.bounce_sound is Some,
        v.gravity matches Some(g) && g.complex,
        v.gravity matches Some(g) && g.no_altitude,
    );
}

} // verus!
