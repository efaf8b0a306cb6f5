//! `PUFFER_STATE` (42): sets the state of a puffer, the particle emitters of
//! the game: where it emits, how its particles move, grow, fade and look.
//!
//! The record of 580 bytes has four parts: the common values (184 bytes),
//! six texture slots (220 bytes), six colour slots (124 bytes) and six
//! growth factor slots (52 bytes). A list of textures, colours or growth
//! factors holds its items in the first slots and zeros in the rest. The
//! flag word of the common part tells which values are present; where a
//! flag is not set, the record holds zeros. The record of Pirate's Moon
//! (584 bytes) holds a number after the common part; the MechWarrior 3
//! record holds none, whatever its flag says.
use vstd::prelude::*;
use crate::anim_def::{index_of, lemma_index_of_name_at, lemma_name_reread, name_at, AnimDef, AnimDefV};
use crate::error::Error;
use crate::flags::{bit, bit_exec};
use crate::float;
use crate::model::{
    bool32_exec, bool_of, range_is_zero, range_is_zero_exec, range_no_neg_zero, vec3_is_zero,
    vec3_is_zero_exec, vec3_no_neg_zero, Range, Vec3,
};
use crate::record::{
    conforms, conforms_all, decode, decode_record, encode, encode_record, fields_view, get_bytes,
    get_u32, lemma_conforming_fields, lemma_decode_conforms, lemma_decode_encode, lemma_encode_decode,
    lemma_encode_size, lemma_size_append,
    lemma_u32_size, size,
    w32, wbytes,
    FieldV, Fld, Kind,
};
use crate::text::{
    all_zero, all_zero_exec, bytes_eq, lemma_pad_unpad, lemma_unpad_pad, pad, pad_exec, padded,
    unpad, unpad_exec, zeros, zeros_exec,
};
use vstd::slice::slice_subrange;

verus! {

broadcast use vstd::seq_lib::group_seq_properties;

/// How the emission interval is measured.
#[derive(Clone, Copy, Debug, PartialEq, Eq, Structural)]
pub enum PufferIntervalType {
    Time,
    Distance,
}

/// The emission interval.
#[derive(Clone, Copy, Debug, PartialEq, Eq, Structural)]
pub struct PufferInterval {
    pub interval_type: PufferIntervalType,
    pub interval_value: u32,
}

/// An interval that the record stores without both of its flags: kept as
/// stored, so that it is written back the same.
#[derive(Clone, Copy, Debug, PartialEq, Eq, Structural)]
pub struct PufferIntervalGarbage {
    pub interval_type: PufferIntervalType,
    pub has_interval_type: bool,
    pub interval_value: u32,
    pub has_interval_value: bool,
}

/// A texture, with a run time where the record has run times.
#[derive(Debug)]
pub struct PufferStateTexture<N> {
    pub name: N,
    pub run_time: Option<u32>,
}

/// A colour entry: five `f32` values.
#[derive(Clone, Copy, Debug, PartialEq, Eq, Structural)]
pub struct PufferStateColor(pub u32, pub u32, pub u32, pub u32, pub u32);

/// The values of the common part of the record.
#[derive(Debug)]
pub struct PufferCommon<N> {
    pub name: N,
    pub active_state: Option<u32>,
    pub at_node: Option<N>,
    pub translate: Option<Vec3>,
    pub local_velocity: Option<Vec3>,
    pub world_velocity: Option<Vec3>,
    pub min_random_velocity: Option<Vec3>,
    pub max_random_velocity: Option<Vec3>,
    pub world_acceleration: Option<Vec3>,
    pub interval: Option<PufferInterval>,
    pub size_range: Option<Range>,
    pub lifetime_range: Option<Range>,
    pub start_age_range: Option<Range>,
    pub deviation_distance: Option<u32>,
    pub unk_range: Option<Range>,
    pub fade_range: Option<Range>,
    pub friction: Option<u32>,
    pub wind_factor: Option<u32>,
    pub priority: Option<u32>,
    pub interval_garbage: Option<PufferIntervalGarbage>,
}

/// A `PUFFER_STATE` event.
#[derive(Debug)]
pub struct PufferState {
    pub common: PufferCommon<Vec<u8>>,
    /// Written as a flag only; the record stores no number, and reading
    /// gives none.
    pub number: Option<u32>,
    pub textures: Option<Vec<PufferStateTexture<Vec<u8>>>>,
    pub colors: Option<Vec<PufferStateColor>>,
    pub growth_factors: Option<Vec<Range>>,
}

/// A `PUFFER_STATE` event, as Verus sees it.
pub struct PufferStateV {
    pub common: PufferCommon<Seq<u8>>,
    pub number: Option<u32>,
    pub textures: Option<Seq<PufferStateTexture<Seq<u8>>>>,
    pub colors: Option<Seq<PufferStateColor>>,
    pub growth_factors: Option<Seq<Range>>,
}

impl DeepView for PufferCommon<Vec<u8>> {
    type V = PufferCommon<Seq<u8>>;

    open spec fn deep_view(&self) -> PufferCommon<Seq<u8>> {
        PufferCommon {
            name: self.name@,
            active_state: self.active_state,
            at_node: match &self.at_node {
                Some(n) => Some(n@),
                None => None,
            },
            translate: self.translate,
            local_velocity: self.local_velocity,
            world_velocity: self.world_velocity,
            min_random_velocity: self.min_random_velocity,
            max_random_velocity: self.max_random_velocity,
            world_acceleration: self.world_acceleration,
            interval: self.interval,
            size_range: self.size_range,
            lifetime_range: self.lifetime_range,
            start_age_range: self.start_age_range,
            deviation_distance: self.deviation_distance,
            unk_range: self.unk_range,
            fade_range: self.fade_range,
            friction: self.friction,
            wind_factor: self.wind_factor,
            priority: self.priority,
            interval_garbage: self.interval_garbage,
        }
    }
}

impl DeepView for PufferStateTexture<Vec<u8>> {
    type V = PufferStateTexture<Seq<u8>>;

    open spec fn deep_view(&self) -> PufferStateTexture<Seq<u8>> {
        PufferStateTexture { name: self.name@, run_time: self.run_time }
    }
}

/// The items of an optional list, as Verus sees them.
pub open spec fn opt_seq<T>(o: &Option<Vec<T>>) -> Option<Seq<T>> {
    match o {
        Some(v) => Some(v@),
        None => None,
    }
}

impl DeepView for PufferState {
    type V = PufferStateV;

    open spec fn deep_view(&self) -> PufferStateV {
        PufferStateV {
            common: self.common.deep_view(),
            number: self.number,
            textures: self.textures.deep_view(),
            colors: opt_seq(&self.colors),
            growth_factors: opt_seq(&self.growth_factors),
        }
    }
}

/// Size of the record.
pub const SIZE: u32 = 580;

/// Sizes of the four parts.
pub const COMMON_SIZE: u32 = 184;

pub const TEXTURES_SIZE: u32 = 220;

pub const COLORS_SIZE: u32 = 124;

pub const GROWTHS_SIZE: u32 = 52;

/// The stored "no node" (`-1`).
pub const NO_NODE: u32 = 0xFFFF_FFFF;

/// Flag bits.
pub const TRANSLATE_ABS: u32 = 0;

pub const AT_NODE: u32 = 1;

pub const ACTIVE_STATE: u32 = 2;

pub const LOCAL_VELOCITY: u32 = 3;

pub const WORLD_VELOCITY: u32 = 4;

pub const MIN_RANDOM_VELOCITY: u32 = 5;

pub const MAX_RANDOM_VELOCITY: u32 = 6;

pub const INTERVAL_TYPE: u32 = 7;

pub const INTERVAL_VALUE: u32 = 8;

pub const SIZE_RANGE: u32 = 9;

pub const LIFETIME_RANGE: u32 = 10;

pub const DEVIATION_DISTANCE: u32 = 11;

pub const FADE_RANGE: u32 = 12;

pub const GROWTH_FACTORS: u32 = 13;

pub const TEXTURES: u32 = 14;

pub const START_AGE_RANGE: u32 = 15;

pub const WORLD_ACCELERATION: u32 = 16;

pub const FRICTION: u32 = 17;

pub const COLORS: u32 = 18;

pub const UNKNOWN_RANGE: u32 = 19;

pub const WIND_FACTOR: u32 = 20;

pub const NUMBER: u32 = 21;

pub const PRIORITY: u32 = 22;

/// The flag word with the given bits set.
#[verifier::opaque]
pub open spec fn word(b0: bool, b1: bool, b2: bool, b3: bool, b4: bool, b5: bool, b6: bool, b7: bool, b8: bool, b9: bool, b10: bool, b11: bool, b12: bool, b13: bool, b14: bool, b15: bool, b16: bool, b17: bool, b18: bool, b19: bool, b20: bool, b21: bool, b22: bool) -> u32 {
    (if b0 { 1u32 } else { 0u32 }) | (if b1 { 2u32 } else { 0u32 }) | (if b2 { 4u32 } else { 0u32 }) | (if b3 { 8u32 } else { 0u32 }) | (if b4 { 16u32 } else { 0u32 }) | (if b5 { 32u32 } else { 0u32 }) | (if b6 { 64u32 } else { 0u32 }) | (if b7 { 128u32 } else { 0u32 }) | (if b8 { 256u32 } else { 0u32 }) | (if b9 { 512u32 } else { 0u32 }) | (if b10 { 1024u32 } else { 0u32 }) | (if b11 { 2048u32 } else { 0u32 }) | (if b12 { 4096u32 } else { 0u32 }) | (if b13 { 8192u32 } else { 0u32 }) | (if b14 { 16384u32 } else { 0u32 }) | (if b15 { 32768u32 } else { 0u32 }) | (if b16 { 65536u32 } else { 0u32 }) | (if b17 { 131072u32 } else { 0u32 }) | (if b18 { 262144u32 } else { 0u32 }) | (if b19 { 524288u32 } else { 0u32 }) | (if b20 { 1048576u32 } else { 0u32 }) | (if b21 { 2097152u32 } else { 0u32 }) | (if b22 { 4194304u32 } else { 0u32 })
}

/// The bits of a flag word are the ones it was built with, and it has no
/// other.
pub proof fn lemma_word(b0: bool, b1: bool, b2: bool, b3: bool, b4: bool, b5: bool, b6: bool, b7: bool, b8: bool, b9: bool, b10: bool, b11: bool, b12: bool, b13: bool, b14: bool, b15: bool, b16: bool, b17: bool, b18: bool, b19: bool, b20: bool, b21: bool, b22: bool)
    ensures
        bit(word(b0, b1, b2, b3, b4, b5, b6, b7, b8, b9, b10, b11, b12, b13, b14, b15, b16, b17, b18, b19, b20, b21, b22), 0) == b0,
        bit(word(b0, b1, b2, b3, b4, b5, b6, b7, b8, b9, b10, b11, b12, b13, b14, b15, b16, b17, b18, b19, b20, b21, b22), 1) == b1,
        bit(word(b0, b1, b2, b3, b4, b5, b6, b7, b8, b9, b10, b11, b12, b13, b14, b15, b16, b17, b18, b19, b20, b21, b22), 2) == b2,
        bit(word(b0, b1, b2, b3, b4, b5, b6, b7, b8, b9, b10, b11, b12, b13, b14, b15, b16, b17, b18, b19, b20, b21, b22), 3) == b3,
        bit(word(b0, b1, b2, b3, b4, b5, b6, b7, b8, b9, b10, b11, b12, b13, b14, b15, b16, b17, b18, b19, b20, b21, b22), 4) == b4,
        bit(word(b0, b1, b2, b3, b4, b5, b6, b7, b8, b9, b10, b11, b12, b13, b14, b15, b16, b17, b18, b19, b20, b21, b22), 5) == b5,
        bit(word(b0, b1, b2, b3, b4, b5, b6, b7, b8, b9, b10, b11, b12, b13, b14, b15, b16, b17, b18, b19, b20, b21, b22), 6) == b6,
        bit(word(b0, b1, b2, b3, b4, b5, b6, b7, b8, b9, b10, b11, b12, b13, b14, b15, b16, b17, b18, b19, b20, b21, b22), 7) == b7,
        bit(word(b0, b1, b2, b3, b4, b5, b6, b7, b8, b9, b10, b11, b12, b13, b14, b15, b16, b17, b18, b19, b20, b21, b22), 8) == b8,
        bit(word(b0, b1, b2, b3, b4, b5, b6, b7, b8, b9, b10, b11, b12, b13, b14, b15, b16, b17, b18, b19, b20, b21, b22), 9) == b9,
        bit(word(b0, b1, b2, b3, b4, b5, b6, b7, b8, b9, b10, b11, b12, b13, b14, b15, b16, b17, b18, b19, b20, b21, b22), 10) == b10,
        bit(word(b0, b1, b2, b3, b4, b5, b6, b7, b8, b9, b10, b11, b12, b13, b14, b15, b16, b17, b18, b19, b20, b21, b22), 11) == b11,
        bit(word(b0, b1, b2, b3, b4, b5, b6, b7, b8, b9, b10, b11, b12, b13, b14, b15, b16, b17, b18, b19, b20, b21, b22), 12) == b12,
        bit(word(b0, b1, b2, b3, b4, b5, b6, b7, b8, b9, b10, b11, b12, b13, b14, b15, b16, b17, b18, b19, b20, b21, b22), 13) == b13,
        bit(word(b0, b1, b2, b3, b4, b5, b6, b7, b8, b9, b10, b11, b12, b13, b14, b15, b16, b17, b18, b19, b20, b21, b22), 14) == b14,
        bit(word(b0, b1, b2, b3, b4, b5, b6, b7, b8, b9, b10, b11, b12, b13, b14, b15, b16, b17, b18, b19, b20, b21, b22), 15) == b15,
        bit(word(b0, b1, b2, b3, b4, b5, b6, b7, b8, b9, b10, b11, b12, b13, b14, b15, b16, b17, b18, b19, b20, b21, b22), 16) == b16,
        bit(word(b0, b1, b2, b3, b4, b5, b6, b7, b8, b9, b10, b11, b12, b13, b14, b15, b16, b17, b18, b19, b20, b21, b22), 17) == b17,
        bit(word(b0, b1, b2, b3, b4, b5, b6, b7, b8, b9, b10, b11, b12, b13, b14, b15, b16, b17, b18, b19, b20, b21, b22), 18) == b18,
        bit(word(b0, b1, b2, b3, b4, b5, b6, b7, b8, b9, b10, b11, b12, b13, b14, b15, b16, b17, b18, b19, b20, b21, b22), 19) == b19,
        bit(word(b0, b1, b2, b3, b4, b5, b6, b7, b8, b9, b10, b11, b12, b13, b14, b15, b16, b17, b18, b19, b20, b21, b22), 20) == b20,
        bit(word(b0, b1, b2, b3, b4, b5, b6, b7, b8, b9, b10, b11, b12, b13, b14, b15, b16, b17, b18, b19, b20, b21, b22), 21) == b21,
        bit(word(b0, b1, b2, b3, b4, b5, b6, b7, b8, b9, b10, b11, b12, b13, b14, b15, b16, b17, b18, b19, b20, b21, b22), 22) == b22,
        word(b0, b1, b2, b3, b4, b5, b6, b7, b8, b9, b10, b11, b12, b13, b14, b15, b16, b17, b18, b19, b20, b21, b22) < 0x80_0000,
        (!b0 && !b1 && !b2 && !b3 && !b4 && !b5 && !b6 && !b7 && !b8 && !b9 && !b10 && !b11 && !b12 && !b13 && !b14 && !b15 && !b16 && !b17 && !b18 && !b19 && !b20 && !b21 && !b22) ==> word(b0, b1, b2, b3, b4, b5, b6, b7, b8, b9, b10, b11, b12, b13, b14, b15, b16, b17, b18, b19, b20, b21, b22) == 0,
{
    reveal(word);
    let w = word(b0, b1, b2, b3, b4, b5, b6, b7, b8, b9, b10, b11, b12, b13, b14, b15, b16, b17, b18, b19, b20, b21, b22);
    assert(bit(w, 0) == b0 && bit(w, 1) == b1 && bit(w, 2) == b2 && bit(w, 3) == b3 && bit(w, 4) == b4 && bit(w, 5) == b5 && bit(w, 6) == b6 && bit(w, 7) == b7 && bit(w, 8) == b8 && bit(w, 9) == b9 && bit(w, 10) == b10 && bit(w, 11) == b11 && bit(w, 12) == b12 && bit(w, 13) == b13 && bit(w, 14) == b14 && bit(w, 15) == b15 && bit(w, 16) == b16 && bit(w, 17) == b17 && bit(w, 18) == b18 && bit(w, 19) == b19 && bit(w, 20) == b20 && bit(w, 21) == b21 && bit(w, 22) == b22 && w < 0x80_0000 && ((!b0 && !b1 && !b2 && !b3 && !b4 && !b5 && !b6 && !b7 && !b8 && !b9 && !b10 && !b11 && !b12 && !b13 && !b14 && !b15 && !b16 && !b17 && !b18 && !b19 && !b20 && !b21 && !b22) ==> w == 0)) by (bit_vector)
        requires
            w == (if b0 { 1u32 } else { 0u32 }) | (if b1 { 2u32 } else { 0u32 }) | (if b2 { 4u32 } else { 0u32 }) | (if b3 { 8u32 } else { 0u32 }) | (if b4 { 16u32 } else { 0u32 }) | (if b5 { 32u32 } else { 0u32 }) | (if b6 { 64u32 } else { 0u32 }) | (if b7 { 128u32 } else { 0u32 }) | (if b8 { 256u32 } else { 0u32 }) | (if b9 { 512u32 } else { 0u32 }) | (if b10 { 1024u32 } else { 0u32 }) | (if b11 { 2048u32 } else { 0u32 }) | (if b12 { 4096u32 } else { 0u32 }) | (if b13 { 8192u32 } else { 0u32 }) | (if b14 { 16384u32 } else { 0u32 }) | (if b15 { 32768u32 } else { 0u32 }) | (if b16 { 65536u32 } else { 0u32 }) | (if b17 { 131072u32 } else { 0u32 }) | (if b18 { 262144u32 } else { 0u32 }) | (if b19 { 524288u32 } else { 0u32 }) | (if b20 { 1048576u32 } else { 0u32 }) | (if b21 { 2097152u32 } else { 0u32 }) | (if b22 { 4194304u32 } else { 0u32 }),
    ;
}

fn word_exec(b0: bool, b1: bool, b2: bool, b3: bool, b4: bool, b5: bool, b6: bool, b7: bool, b8: bool, b9: bool, b10: bool, b11: bool, b12: bool, b13: bool, b14: bool, b15: bool, b16: bool, b17: bool, b18: bool, b19: bool, b20: bool, b21: bool, b22: bool) -> (r: u32)
    ensures
        r == word(b0, b1, b2, b3, b4, b5, b6, b7, b8, b9, b10, b11, b12, b13, b14, b15, b16, b17, b18, b19, b20, b21, b22),
{
    proof {
        reveal(word);
    }
    (if b0 { 1u32 } else { 0u32 }) | (if b1 { 2u32 } else { 0u32 }) | (if b2 { 4u32 } else { 0u32 }) | (if b3 { 8u32 } else { 0u32 }) | (if b4 { 16u32 } else { 0u32 }) | (if b5 { 32u32 } else { 0u32 }) | (if b6 { 64u32 } else { 0u32 }) | (if b7 { 128u32 } else { 0u32 }) | (if b8 { 256u32 } else { 0u32 }) | (if b9 { 512u32 } else { 0u32 }) | (if b10 { 1024u32 } else { 0u32 }) | (if b11 { 2048u32 } else { 0u32 }) | (if b12 { 4096u32 } else { 0u32 }) | (if b13 { 8192u32 } else { 0u32 }) | (if b14 { 16384u32 } else { 0u32 }) | (if b15 { 32768u32 } else { 0u32 }) | (if b16 { 65536u32 } else { 0u32 }) | (if b17 { 131072u32 } else { 0u32 }) | (if b18 { 262144u32 } else { 0u32 }) | (if b19 { 524288u32 } else { 0u32 }) | (if b20 { 1048576u32 } else { 0u32 }) | (if b21 { 2097152u32 } else { 0u32 }) | (if b22 { 4194304u32 } else { 0u32 })
}

/// Fields of the common part.
pub open spec fn common_layout() -> Seq<Kind> {
    seq![Kind::Bytes(32)] + Seq::new(38, |i: int| Kind::U32)
}

/// Fields of the textures: whether they have run times, then six times a
/// run time and a name.
pub open spec fn textures_layout() -> Seq<Kind> {
    seq![
        Kind::U32,
        Kind::U32,
        Kind::Bytes(32),
        Kind::U32,
        Kind::Bytes(32),
        Kind::U32,
        Kind::Bytes(32),
        Kind::U32,
        Kind::Bytes(32),
        Kind::U32,
        Kind::Bytes(32),
        Kind::U32,
        Kind::Bytes(32),
    ]
}

/// Fields of the colours: a count, then six times five values.
pub open spec fn colors_layout() -> Seq<Kind> {
    Seq::new(31, |i: int| Kind::U32)
}

/// Fields of the growth factors: a count, then six ranges.
pub open spec fn growths_layout() -> Seq<Kind> {
    Seq::new(13, |i: int| Kind::U32)
}

/// The sizes of the four layouts.
pub proof fn lemma_layout_sizes()
    ensures
        size(common_layout()) == COMMON_SIZE,
        size(textures_layout()) == TEXTURES_SIZE,
        size(colors_layout()) == COLORS_SIZE,
        size(growths_layout()) == GROWTHS_SIZE,
{
    lemma_u32_size(38);
    lemma_u32_size(31);
    lemma_u32_size(13);
    lemma_size_append(seq![Kind::Bytes(32)], Seq::new(38, |i: int| Kind::U32));
    assert(size(seq![Kind::Bytes(32)]) == 32) by {
        reveal_with_fuel(size, 2);
    }
    assert(size(textures_layout()) == TEXTURES_SIZE) by {
        reveal_with_fuel(size, 14);
    }
}

fn u32_layout(n: usize) -> (r: Vec<Kind>)
    requires
        n <= 64,
    ensures
        r@ == Seq::new(n as nat, |i: int| Kind::U32),
{
    let mut r: Vec<Kind> = Vec::new();
    let mut i: usize = 0;
    while i < n
        invariant
            i <= n,
            r@ == Seq::new(i as nat, |k: int| Kind::U32),
        decreases n - i,
    {
        r.push(Kind::U32);
        i = i + 1;
        proof {
            assert(r@ =~= Seq::new(i as nat, |k: int| Kind::U32));
        }
    }
    r
}

fn common_layout_exec() -> (r: Vec<Kind>)
    ensures
        r@ == common_layout(),
{
    let mut r = vec![Kind::Bytes(32)];
    let rest = u32_layout(38);
    let mut i: usize = 0;
    while i < 38
        invariant
            i <= 38,
            rest@ == Seq::new(38, |k: int| Kind::U32),
            r@ == seq![Kind::Bytes(32)] + Seq::new(i as nat, |k: int| Kind::U32),
        decreases 38 - i,
    {
        r.push(rest[i]);
        i = i + 1;
        proof {
            assert(r@ =~= seq![Kind::Bytes(32)] + Seq::new(i as nat, |k: int| Kind::U32));
        }
    }
    proof {
        assert(r@ =~= common_layout());
    }
    r
}

fn textures_layout_exec() -> (r: Vec<Kind>)
    ensures
        r@ == textures_layout(),
{
    let r = vec![
        Kind::U32,
        Kind::U32,
        Kind::Bytes(32),
        Kind::U32,
        Kind::Bytes(32),
        Kind::U32,
        Kind::Bytes(32),
        Kind::U32,
        Kind::Bytes(32),
        Kind::U32,
        Kind::Bytes(32),
        Kind::U32,
        Kind::Bytes(32),
    ];
    proof {
        assert(r@ =~= textures_layout());
    }
    r
}

/// The vector of fields `i` to `i + 2`.
pub open spec fn vec_at(f: Seq<FieldV>, i: int) -> Vec3 {
    Vec3 { x: w32(f, i), y: w32(f, i + 1), z: w32(f, i + 2) }
}

/// The range of fields `i` and `i + 1`.
pub open spec fn range_at(f: Seq<FieldV>, i: int) -> Range {
    Range { min: w32(f, i), max: w32(f, i + 1) }
}

/// A vector present where its flag is set, zero otherwise.
pub open spec fn opt_vec(set: bool, v: Vec3) -> Option<Option<Vec3>> {
    if set {
        Some(Some(v))
    } else if vec3_is_zero(v) {
        Some(None)
    } else {
        None
    }
}

/// A range present (and passing its check) where its flag is set, zero
/// otherwise.
pub open spec fn opt_range(set: bool, r: Range, ok: bool) -> Option<Option<Range>> {
    if set {
        if ok {
            Some(Some(r))
        } else {
            None
        }
    } else if range_is_zero(r) {
        Some(None)
    } else {
        None
    }
}

/// A value present (and passing its check) where its flag is set, zero
/// otherwise.
pub open spec fn opt_value(set: bool, x: u32, ok: bool) -> Option<Option<u32>> {
    if set {
        if ok {
            Some(Some(x))
        } else {
            None
        }
    } else if float::is_zero(x) {
        Some(None)
    } else {
        None
    }
}

/// A stored `size_range` starts above zero and rises.
pub open spec fn size_range_ok(r: Range) -> bool {
    float::lt(float::ZERO, r.min) && float::lt(r.min, r.max)
}

/// A stored `lifetime_range` has both ends above zero.
pub open spec fn lifetime_range_ok(r: Range) -> bool {
    float::lt(float::ZERO, r.min) && float::lt(float::ZERO, r.max)
}

/// A stored `start_age_range` starts at or above zero and rises.
pub open spec fn start_age_range_ok(r: Range) -> bool {
    float::le(float::ZERO, r.min) && float::lt(r.min, r.max)
}

/// A stored `unk_range` starts above zero and does not fall.
pub open spec fn unk_range_ok(r: Range) -> bool {
    float::lt(float::ZERO, r.min) && float::le(r.min, r.max)
}

/// A stored `fade_range` starts above zero and rises.
pub open spec fn fade_range_ok(r: Range) -> bool {
    float::lt(float::ZERO, r.min) && float::lt(r.min, r.max)
}
/// A stored `deviation_distance` is above zero.
pub open spec fn deviation_distance_ok(x: u32) -> bool {
    float::lt(float::ZERO, x)
}

/// A stored `friction` is at least zero.
pub open spec fn friction_ok(x: u32) -> bool {
    float::le(float::ZERO, x)
}

/// A stored `wind_factor` is at least zero.
pub open spec fn wind_factor_ok(x: u32) -> bool {
    float::le(float::ZERO, x)
}

/// A stored `priority` is at least zero.
pub open spec fn priority_ok(x: u32) -> bool {
    float::le(float::ZERO, x)
}


/// The interval type of a stored boolean.
pub open spec fn interval_type_of(b: bool) -> PufferIntervalType {
    if b {
        PufferIntervalType::Distance
    } else {
        PufferIntervalType::Time
    }
}

/// The interval of the flags, type and value: with both flags, an
/// interval of a value at least zero; otherwise the stored values as they
/// are.
pub open spec fn interval_of(fl: u32, t: bool, value: u32) -> Option<
    (Option<PufferInterval>, Option<PufferIntervalGarbage>),
> {
    let ty = interval_type_of(t);
    if bit(fl, INTERVAL_TYPE) && bit(fl, INTERVAL_VALUE) {
        if float::le(float::ZERO, value) {
            Some((Some(PufferInterval { interval_type: ty, interval_value: value }), None))
        } else {
            None
        }
    } else {
        Some(
            (
                None,
                Some(
                    PufferIntervalGarbage {
                        interval_type: ty,
                        has_interval_type: bit(fl, INTERVAL_TYPE),
                        interval_value: value,
                        has_interval_value: bit(fl, INTERVAL_VALUE),
                    },
                ),
            ),
        )
    }
}

/// The active state: at most 10 where its flag is set, zero otherwise.
pub open spec fn active_of(set: bool, x: u32) -> Option<Option<u32>> {
    if set {
        if x <= 10 {
            Some(Some(x))
        } else {
            None
        }
    } else if x == 0 {
        Some(None)
    } else {
        None
    }
}

/// The node: a node where its flag is set, `-1` otherwise.
pub open spec fn at_node_of(ad: AnimDefV, set: bool, raw: u32) -> Option<Option<Seq<u8>>> {
    if set {
        match name_at(ad.nodes, raw as int) {
            Some(n) => Some(Some(n)),
            None => None,
        }
    } else if raw == NO_NODE {
        Some(None)
    } else {
        None
    }
}

/// The six vectors of the common fields, each present where its flag is set and zero otherwise: translation, local, world, least and greatest random velocity, world acceleration.
pub open spec fn vecs_part(fl: u32, f: Seq<FieldV>) -> Option<(Option<Vec3>, Option<Vec3>, Option<Vec3>, Option<Vec3>, Option<Vec3>, Option<Vec3>)> {
    match (
        opt_vec(bit(fl, TRANSLATE_ABS), vec_at(f, 5)),
        opt_vec(bit(fl, LOCAL_VELOCITY), vec_at(f, 8)),
        opt_vec(bit(fl, WORLD_VELOCITY), vec_at(f, 11)),
        opt_vec(bit(fl, MIN_RANDOM_VELOCITY), vec_at(f, 14)),
        opt_vec(bit(fl, MAX_RANDOM_VELOCITY), vec_at(f, 17)),
        opt_vec(bit(fl, WORLD_ACCELERATION), vec_at(f, 20)),
    ) {
        (Some(a), Some(b), Some(c), Some(d), Some(e), Some(f)) => Some((a, b, c, d, e, f)),
        _ => None,
    }
}

/// The ranges and values of the common fields, each present (and passing its check) where its flag is set and zero otherwise: size, lifetime, start age, unknown and fade range, then deviation distance, friction, wind factor and priority.
pub open spec fn scalars_part(fl: u32, f: Seq<FieldV>) -> Option<(Option<Range>, Option<Range>, Option<Range>, Option<Range>, Option<Range>, Option<u32>, Option<u32>, Option<u32>, Option<u32>)> {
    match (
        opt_range(bit(fl, SIZE_RANGE), range_at(f, 25), size_range_ok(range_at(f, 25))),
        opt_range(bit(fl, LIFETIME_RANGE), range_at(f, 27), lifetime_range_ok(range_at(f, 27))),
        opt_range(bit(fl, START_AGE_RANGE), range_at(f, 29), start_age_range_ok(range_at(f, 29))),
        opt_range(bit(fl, UNKNOWN_RANGE), range_at(f, 32), unk_range_ok(range_at(f, 32))),
        opt_range(bit(fl, FADE_RANGE), range_at(f, 34), fade_range_ok(range_at(f, 34))),
        opt_value(bit(fl, DEVIATION_DISTANCE), w32(f, 31), deviation_distance_ok(w32(f, 31))),
        opt_value(bit(fl, FRICTION), w32(f, 36), friction_ok(w32(f, 36))),
        opt_value(bit(fl, WIND_FACTOR), w32(f, 37), wind_factor_ok(w32(f, 37))),
        opt_value(bit(fl, PRIORITY), w32(f, 38), priority_ok(w32(f, 38))),
    ) {
        (Some(a), Some(b), Some(c), Some(d), Some(e), Some(f), Some(g), Some(h), Some(i)) => Some((a, b, c, d, e, f, g, h, i)),
        _ => None,
    }
}


/// The name of the common fields, if they hold one: the name field holds
/// the name of the puffer that the puffer index refers to.
pub open spec fn name_part(ad: AnimDefV, f: Seq<FieldV>) -> Option<Seq<u8>> {
    match (unpad(wbytes(f, 0)), name_at(ad.puffers, w32(f, 1) as int)) {
        (Some(name), Some(expected)) => if name == expected {
            Some(name)
        } else {
            None
        },
        _ => None,
    }
}

/// The interval of the common fields: a stored boolean for its type, and
/// its value.
pub open spec fn interval_part(fl: u32, f: Seq<FieldV>) -> Option<
    (Option<PufferInterval>, Option<PufferIntervalGarbage>),
> {
    match bool_of(w32(f, 23) as int) {
        Some(t) => interval_of(fl, t, w32(f, 24)),
        None => None,
    }
}

/// The flag word holds only known flags, and none at all where the puffer
/// is not active.
pub open spec fn flags_ok(fl: u32) -> bool {
    fl < 0x80_0000 && (bit(fl, ACTIVE_STATE) || fl == 0)
}

/// The common values of the common fields, if they hold them: the flags,
/// the name, the active state, the node, the interval, the vectors and the
/// ranges and values each as above.
pub open spec fn common_part(ad: AnimDefV, f: Seq<FieldV>) -> Option<PufferCommon<Seq<u8>>> {
    let fl = w32(f, 2);
    if !flags_ok(fl) {
        None
    } else {
        match (
            name_part(ad, f),
            active_of(bit(fl, ACTIVE_STATE), w32(f, 4)),
            at_node_of(ad, bit(fl, AT_NODE), w32(f, 3)),
            interval_part(fl, f),
            vecs_part(fl, f),
            scalars_part(fl, f),
        ) {
            (Some(name), Some(active_state), Some(at_node), Some(iv), Some(v), Some(x)) => Some(
                PufferCommon {
                    name,
                    active_state,
                    at_node,
                    translate: v.0,
                    local_velocity: v.1,
                    world_velocity: v.2,
                    min_random_velocity: v.3,
                    max_random_velocity: v.4,
                    world_acceleration: v.5,
                    interval: iv.0,
                    size_range: x.0,
                    lifetime_range: x.1,
                    start_age_range: x.2,
                    unk_range: x.3,
                    fade_range: x.4,
                    deviation_distance: x.5,
                    friction: x.6,
                    wind_factor: x.7,
                    priority: x.8,
                    interval_garbage: iv.1,
                },
            ),
            _ => None,
        }
    }
}

/// Run time of texture slot `i`: the textures hold whether they have run
/// times, then a run time and a name for each of six slots.
pub open spec fn slot_rt(f: Seq<FieldV>, i: int) -> u32 {
    w32(f, 1 + 2 * i)
}

/// Name field of texture slot `i`.
pub open spec fn slot_name(f: Seq<FieldV>, i: int) -> Seq<u8> {
    wbytes(f, 2 + 2 * i)
}

/// Texture slot `i` is empty: a zero run time and a name field of zeros.
pub open spec fn slot_is_zero(f: Seq<FieldV>, i: int) -> bool {
    float::is_zero(slot_rt(f, i)) && all_zero(slot_name(f, i))
}

/// The number of texture slots up to the last one among the first `k` whose
/// name does not start with a zero byte.
pub open spec fn named_slots(f: Seq<FieldV>, k: nat) -> nat
    decreases k,
{
    if k == 0 {
        0
    } else if slot_name(f, k - 1)[0] != 0 {
        k
    } else {
        named_slots(f, (k - 1) as nat)
    }
}

/// The texture of slot `i`, if it holds one: the slot is not empty, its
/// run time is zero where the textures have no run times, and its name
/// field holds a name.
pub open spec fn texture_of(f: Seq<FieldV>, i: int, has_rt: bool) -> Option<
    PufferStateTexture<Seq<u8>>,
> {
    if slot_is_zero(f, i) || (!has_rt && !float::is_zero(slot_rt(f, i))) {
        None
    } else {
        match unpad(slot_name(f, i)) {
            Some(name) => Some(
                PufferStateTexture {
                    name,
                    run_time: if has_rt {
                        Some(slot_rt(f, i))
                    } else {
                        None
                    },
                },
            ),
            None => None,
        }
    }
}

/// The textures of the texture fields, if they hold them: a stored boolean
/// for the run times; where the flag is set, at least one slot up to the
/// last named one, each holding a texture, and empty slots after it; where
/// it is not set, six empty slots.
pub open spec fn textures_part(fl: u32, f: Seq<FieldV>) -> Option<
    Option<Seq<PufferStateTexture<Seq<u8>>>>,
> {
    let n = named_slots(f, 6);
    match bool_of(w32(f, 0) as int) {
        None => None,
        Some(has_rt) => if bit(fl, TEXTURES) {
            if n > 0 && (forall|i: int| 0 <= i < n ==> #[trigger] texture_of(f, i, has_rt) is Some)
                && (forall|i: int| n <= i < 6 ==> #[trigger] slot_is_zero(f, i)) {
                Some(Some(Seq::new(n, |i: int| texture_of(f, i, has_rt).unwrap())))
            } else {
                None
            }
        } else if forall|i: int| 0 <= i < 6 ==> #[trigger] slot_is_zero(f, i) {
            Some(None)
        } else {
            None
        },
    }
}

/// Colour slot `i`: the colours hold a count, then five values for each of
/// six slots.
pub open spec fn color_at(f: Seq<FieldV>, i: int) -> PufferStateColor {
    PufferStateColor(w32(f, 1 + 5 * i), w32(f, 2 + 5 * i), w32(f, 3 + 5 * i), w32(f, 4 + 5 * i), w32(f, 5 + 5 * i))
}

/// All five values of a colour compare equal to `0.0`.
pub open spec fn color_is_zero(c: PufferStateColor) -> bool {
    float::is_zero(c.0) && float::is_zero(c.1) && float::is_zero(c.2) && float::is_zero(c.3)
        && float::is_zero(c.4)
}

/// The colours of the colour fields, if they hold them: where the flag is
/// set, a count from 1 to 5, that many colours that are not zero and zeros
/// after them; where it is not set, a count of zero and six zero colours.
pub open spec fn colors_part(fl: u32, f: Seq<FieldV>) -> Option<Option<Seq<PufferStateColor>>> {
    let n = w32(f, 0) as int;
    if bit(fl, COLORS) {
        if 1 <= n <= 5 && (forall|i: int| 0 <= i < n ==> !color_is_zero(#[trigger] color_at(f, i)))
            && (forall|i: int| n <= i < 6 ==> color_is_zero(#[trigger] color_at(f, i))) {
            Some(Some(Seq::new(n as nat, |i: int| color_at(f, i))))
        } else {
            None
        }
    } else if n == 0 && forall|i: int| 0 <= i < 6 ==> color_is_zero(#[trigger] color_at(f, i)) {
        Some(None)
    } else {
        None
    }
}

/// Growth factor slot `i`: the growth factors hold a count, then a range
/// for each of six slots.
pub open spec fn growth_at(f: Seq<FieldV>, i: int) -> Range {
    Range { min: w32(f, 1 + 2 * i), max: w32(f, 2 + 2 * i) }
}

/// The growth factors of their fields, if they hold them: where the flag
/// is set, a count from 1 to 5, that many ranges that are not zero and
/// zeros after them; where it is not set, a count of zero and six zero
/// ranges.
pub open spec fn growths_part(fl: u32, f: Seq<FieldV>) -> Option<Option<Seq<Range>>> {
    let n = w32(f, 0) as int;
    if bit(fl, GROWTH_FACTORS) {
        if 1 <= n <= 5 && (forall|i: int| 0 <= i < n ==> !range_is_zero(#[trigger] growth_at(f, i)))
            && (forall|i: int| n <= i < 6 ==> range_is_zero(#[trigger] growth_at(f, i))) {
            Some(Some(Seq::new(n as nat, |i: int| growth_at(f, i))))
        } else {
            None
        }
    } else if n == 0 && forall|i: int| 0 <= i < 6 ==> range_is_zero(#[trigger] growth_at(f, i)) {
        Some(None)
    } else {
        None
    }
}

/// The event that a record holds, if it holds one: the four parts each hold
/// their values, read against the flags of the common part. A record holds
/// no number.
pub open spec fn parse(ad: AnimDefV, s: Seq<u8>) -> Option<PufferStateV> {
    if s.len() == SIZE {
        let fc = decode(common_layout(), s.subrange(0, 184));
        let fl = w32(fc, 2);
        match (
            common_part(ad, fc),
            textures_part(fl, decode(textures_layout(), s.subrange(184, 404))),
            colors_part(fl, decode(colors_layout(), s.subrange(404, 528))),
            growths_part(fl, decode(growths_layout(), s.subrange(528, 580))),
        ) {
            (Some(common), Some(textures), Some(colors), Some(growth_factors)) => Some(
                PufferStateV { common, number: None, textures, colors, growth_factors },
            ),
            _ => None,
        }
    } else {
        None
    }
}

/// The stored value of an interval type.
pub open spec fn type_value(t: PufferIntervalType) -> u32 {
    match t {
        PufferIntervalType::Time => 0,
        PufferIntervalType::Distance => 1,
    }
}

/// The interval flags that an interval or its stored values set: both for
/// an interval, those of the stored values otherwise.
pub open spec fn interval_bits(
    interval: Option<PufferInterval>,
    garbage: Option<PufferIntervalGarbage>,
) -> (bool, bool) {
    match (interval, garbage) {
        (Some(_), _) => (true, true),
        (None, Some(g)) => (g.has_interval_type, g.has_interval_value),
        (None, None) => (false, false),
    }
}

/// The stored interval type and value.
pub open spec fn interval_values(
    interval: Option<PufferInterval>,
    garbage: Option<PufferIntervalGarbage>,
) -> (u32, u32) {
    match (interval, garbage) {
        (Some(i), _) => (type_value(i.interval_type), i.interval_value),
        (None, Some(g)) => (type_value(g.interval_type), g.interval_value),
        (None, None) => (0, 0),
    }
}

/// A vector, or zero.
pub open spec fn vec_or_zero(v: Option<Vec3>) -> Vec3 {
    match v {
        Some(v) => v,
        None => Vec3 { x: 0, y: 0, z: 0 },
    }
}

/// A range, or zero.
pub open spec fn range_or_zero(r: Option<Range>) -> Range {
    match r {
        Some(r) => r,
        None => Range { min: 0, max: 0 },
    }
}

/// A value, or zero.
pub open spec fn value_or_zero(x: Option<u32>) -> u32 {
    match x {
        Some(x) => x,
        None => 0,
    }
}

/// The flag word of the common values and of which of the textures,
/// colours, growth factors and number are present.
#[verifier::opaque]
pub open spec fn flags_of(
    c: PufferCommon<Seq<u8>>,
    textures: bool,
    colors: bool,
    growths: bool,
    number: bool,
) -> u32 {
    word(
        c.translate is Some,
        c.at_node is Some,
        c.active_state is Some,
        c.local_velocity is Some,
        c.world_velocity is Some,
        c.min_random_velocity is Some,
        c.max_random_velocity is Some,
        interval_bits(c.interval, c.interval_garbage).0,
        interval_bits(c.interval, c.interval_garbage).1,
        c.size_range is Some,
        c.lifetime_range is Some,
        c.deviation_distance is Some,
        c.fade_range is Some,
        growths,
        textures,
        c.start_age_range is Some,
        c.world_acceleration is Some,
        c.friction is Some,
        colors,
        c.unk_range is Some,
        c.wind_factor is Some,
        number,
        c.priority is Some,
    )
}

/// The bits of the flag word of the common values.
pub proof fn lemma_flags_of_bits(
    c: PufferCommon<Seq<u8>>,
    textures: bool,
    colors: bool,
    growths: bool,
    number: bool,
)
    ensures
        ({
            let w = flags_of(c, textures, colors, growths, number);
            &&& bit(w, 0) == (c.translate is Some)
            &&& bit(w, 1) == (c.at_node is Some)
            &&& bit(w, 2) == (c.active_state is Some)
            &&& bit(w, 3) == (c.local_velocity is Some)
            &&& bit(w, 4) == (c.world_velocity is Some)
            &&& bit(w, 5) == (c.min_random_velocity is Some)
            &&& bit(w, 6) == (c.max_random_velocity is Some)
            &&& bit(w, 7) == (interval_bits(c.interval, c.interval_garbage).0)
            &&& bit(w, 8) == (interval_bits(c.interval, c.interval_garbage).1)
            &&& bit(w, 9) == (c.size_range is Some)
            &&& bit(w, 10) == (c.lifetime_range is Some)
            &&& bit(w, 11) == (c.deviation_distance is Some)
            &&& bit(w, 12) == (c.fade_range is Some)
            &&& bit(w, 13) == (growths)
            &&& bit(w, 14) == (textures)
            &&& bit(w, 15) == (c.start_age_range is Some)
            &&& bit(w, 16) == (c.world_acceleration is Some)
            &&& bit(w, 17) == (c.friction is Some)
            &&& bit(w, 18) == (colors)
            &&& bit(w, 19) == (c.unk_range is Some)
            &&& bit(w, 20) == (c.wind_factor is Some)
            &&& bit(w, 21) == (number)
            &&& bit(w, 22) == (c.priority is Some)
            &&& w < 0x80_0000
            &&& (!(c.translate is Some) && !(c.at_node is Some) && !(c.active_state is Some) && !(c.local_velocity is Some) && !(c.world_velocity is Some) && !(c.min_random_velocity is Some) && !(c.max_random_velocity is Some) && !(interval_bits(c.interval, c.interval_garbage).0) && !(interval_bits(c.interval, c.interval_garbage).1) && !(c.size_range is Some) && !(c.lifetime_range is Some) && !(c.deviation_distance is Some) && !(c.fade_range is Some) && !(growths) && !(textures) && !(c.start_age_range is Some) && !(c.world_acceleration is Some) && !(c.friction is Some) && !(colors) && !(c.unk_range is Some) && !(c.wind_factor is Some) && !(number) && !(c.priority is Some)) ==> w == 0
        }),
{
    lemma_word(
        c.translate is Some,
        c.at_node is Some,
        c.active_state is Some,
        c.local_velocity is Some,
        c.world_velocity is Some,
        c.min_random_velocity is Some,
        c.max_random_velocity is Some,
        interval_bits(c.interval, c.interval_garbage).0,
        interval_bits(c.interval, c.interval_garbage).1,
        c.size_range is Some,
        c.lifetime_range is Some,
        c.deviation_distance is Some,
        c.fade_range is Some,
        growths,
        textures,
        c.start_age_range is Some,
        c.world_acceleration is Some,
        c.friction is Some,
        colors,
        c.unk_range is Some,
        c.wind_factor is Some,
        number,
        c.priority is Some,
    );
    assert(flags_of(c, textures, colors, growths, number) == word(
        c.translate is Some,
        c.at_node is Some,
        c.active_state is Some,
        c.local_velocity is Some,
        c.world_velocity is Some,
        c.min_random_velocity is Some,
        c.max_random_velocity is Some,
        interval_bits(c.interval, c.interval_garbage).0,
        interval_bits(c.interval, c.interval_garbage).1,
        c.size_range is Some,
        c.lifetime_range is Some,
        c.deviation_distance is Some,
        c.fade_range is Some,
        growths,
        textures,
        c.start_age_range is Some,
        c.world_acceleration is Some,
        c.friction is Some,
        colors,
        c.unk_range is Some,
        c.wind_factor is Some,
        number,
        c.priority is Some,
    )) by {
        reveal(flags_of);
    }
}

/// The fields of the six vectors, zero where absent.
pub open spec fn vec_fields(c: PufferCommon<Seq<u8>>) -> Seq<FieldV> {
    seq![
                FieldV::U32(vec_or_zero(c.translate).x),
                FieldV::U32(vec_or_zero(c.translate).y),
                FieldV::U32(vec_or_zero(c.translate).z),
                FieldV::U32(vec_or_zero(c.local_velocity).x),
                FieldV::U32(vec_or_zero(c.local_velocity).y),
                FieldV::U32(vec_or_zero(c.local_velocity).z),
                FieldV::U32(vec_or_zero(c.world_velocity).x),
                FieldV::U32(vec_or_zero(c.world_velocity).y),
                FieldV::U32(vec_or_zero(c.world_velocity).z),
                FieldV::U32(vec_or_zero(c.min_random_velocity).x),
                FieldV::U32(vec_or_zero(c.min_random_velocity).y),
                FieldV::U32(vec_or_zero(c.min_random_velocity).z),
                FieldV::U32(vec_or_zero(c.max_random_velocity).x),
                FieldV::U32(vec_or_zero(c.max_random_velocity).y),
                FieldV::U32(vec_or_zero(c.max_random_velocity).z),
                FieldV::U32(vec_or_zero(c.world_acceleration).x),
                FieldV::U32(vec_or_zero(c.world_acceleration).y),
                FieldV::U32(vec_or_zero(c.world_acceleration).z),
    ]
}

/// The fields of the ranges and values, zero where absent.
pub open spec fn scalar_fields(c: PufferCommon<Seq<u8>>) -> Seq<FieldV> {
    seq![
                FieldV::U32(range_or_zero(c.size_range).min),
                FieldV::U32(range_or_zero(c.size_range).max),
                FieldV::U32(range_or_zero(c.lifetime_range).min),
                FieldV::U32(range_or_zero(c.lifetime_range).max),
                FieldV::U32(range_or_zero(c.start_age_range).min),
                FieldV::U32(range_or_zero(c.start_age_range).max),
                FieldV::U32(value_or_zero(c.deviation_distance)),
                FieldV::U32(range_or_zero(c.unk_range).min),
                FieldV::U32(range_or_zero(c.unk_range).max),
                FieldV::U32(range_or_zero(c.fade_range).min),
                FieldV::U32(range_or_zero(c.fade_range).max),
                FieldV::U32(value_or_zero(c.friction)),
                FieldV::U32(value_or_zero(c.wind_factor)),
                FieldV::U32(value_or_zero(c.priority)),
    ]
}

/// The fields of the common part, if it can be written: the puffer and the
/// node (if any) have indices, and the name fits its field.
pub open spec fn common_fields(
    ad: AnimDefV,
    c: PufferCommon<Seq<u8>>,
    textures: bool,
    colors: bool,
    growths: bool,
    number: bool,
) -> Option<Seq<FieldV>> {
    let node = match c.at_node {
        Some(n) => index_of(ad.nodes, n),
        None => Some(NO_NODE as int),
    };
    let iv = interval_values(c.interval, c.interval_garbage);
    match (pad(c.name, 32), index_of(ad.puffers, c.name), node) {
        (Some(nb), Some(pi), Some(ni)) => Some(
            seq![
                FieldV::Bytes(nb),
                FieldV::U32(pi as u32),
                FieldV::U32(flags_of(c, textures, colors, growths, number)),
                FieldV::U32(ni as u32),
                FieldV::U32(value_or_zero(c.active_state)),
            ] + vec_fields(c) + seq![FieldV::U32(iv.0), FieldV::U32(iv.1)] + scalar_fields(c),
        ),
        _ => None,
    }
}

/// The textures, or none.
pub open spec fn texture_list(t: Option<Seq<PufferStateTexture<Seq<u8>>>>) -> Seq<
    PufferStateTexture<Seq<u8>>,
> {
    match t {
        Some(t) => t,
        None => Seq::empty(),
    }
}

/// Some texture has a run time.
pub open spec fn has_run_times(t: Seq<PufferStateTexture<Seq<u8>>>) -> bool {
    exists|i: int| 0 <= i < t.len() && (#[trigger] t[i]).run_time is Some
}

/// The stored run time of texture slot `i`.
pub open spec fn slot_rt_of(t: Seq<PufferStateTexture<Seq<u8>>>, i: int) -> u32 {
    if 0 <= i < t.len() {
        value_or_zero(t[i].run_time)
    } else {
        0
    }
}

/// The stored name field of texture slot `i`.
pub open spec fn slot_name_of(t: Seq<PufferStateTexture<Seq<u8>>>, i: int) -> Seq<u8> {
    if 0 <= i < t.len() {
        padded(t[i].name, 32)
    } else {
        zeros(32)
    }
}

/// The textures can be written: at most six, each name fitting its field.
pub open spec fn textures_writable(t: Option<Seq<PufferStateTexture<Seq<u8>>>>) -> bool {
    let s = texture_list(t);
    s.len() <= 6 && forall|i: int| 0 <= i < s.len() ==> #[trigger] pad(s[i].name, 32) is Some
}

/// The texture fields.
pub open spec fn texture_fields(t: Option<Seq<PufferStateTexture<Seq<u8>>>>) -> Seq<FieldV> {
    let s = texture_list(t);
    seq![
        FieldV::U32(if has_run_times(s) { 1u32 } else { 0u32 }),
        FieldV::U32(slot_rt_of(s, 0)),
        FieldV::Bytes(slot_name_of(s, 0)),
        FieldV::U32(slot_rt_of(s, 1)),
        FieldV::Bytes(slot_name_of(s, 1)),
        FieldV::U32(slot_rt_of(s, 2)),
        FieldV::Bytes(slot_name_of(s, 2)),
        FieldV::U32(slot_rt_of(s, 3)),
        FieldV::Bytes(slot_name_of(s, 3)),
        FieldV::U32(slot_rt_of(s, 4)),
        FieldV::Bytes(slot_name_of(s, 4)),
        FieldV::U32(slot_rt_of(s, 5)),
        FieldV::Bytes(slot_name_of(s, 5)),
    ]
}

/// The items of a list, or none.
pub open spec fn item_list<T>(o: Option<Seq<T>>) -> Seq<T> {
    match o {
        Some(s) => s,
        None => Seq::empty(),
    }
}

/// A list that fits six slots, or none.
pub open spec fn fits_slots<T>(o: Option<Seq<T>>) -> bool {
    item_list(o).len() <= 6
}

/// Colour slot `i` of a list: its colour, or zero.
pub open spec fn color_slot(c: Seq<PufferStateColor>, i: int) -> PufferStateColor {
    if 0 <= i < c.len() {
        c[i]
    } else {
        PufferStateColor(0, 0, 0, 0, 0)
    }
}

/// Growth factor slot `i` of a list: its range, or zero.
pub open spec fn growth_slot(g: Seq<Range>, i: int) -> Range {
    if 0 <= i < g.len() {
        g[i]
    } else {
        Range { min: 0, max: 0 }
    }
}

/// The colour fields.
pub open spec fn color_fields(o: Option<Seq<PufferStateColor>>) -> Seq<FieldV> {
    let c = item_list(o);
    seq![
        FieldV::U32(c.len() as u32),
        FieldV::U32(color_slot(c, 0).0),
        FieldV::U32(color_slot(c, 0).1),
        FieldV::U32(color_slot(c, 0).2),
        FieldV::U32(color_slot(c, 0).3),
        FieldV::U32(color_slot(c, 0).4),
        FieldV::U32(color_slot(c, 1).0),
        FieldV::U32(color_slot(c, 1).1),
        FieldV::U32(color_slot(c, 1).2),
        FieldV::U32(color_slot(c, 1).3),
        FieldV::U32(color_slot(c, 1).4),
        FieldV::U32(color_slot(c, 2).0),
        FieldV::U32(color_slot(c, 2).1),
        FieldV::U32(color_slot(c, 2).2),
        FieldV::U32(color_slot(c, 2).3),
        FieldV::U32(color_slot(c, 2).4),
        FieldV::U32(color_slot(c, 3).0),
        FieldV::U32(color_slot(c, 3).1),
        FieldV::U32(color_slot(c, 3).2),
        FieldV::U32(color_slot(c, 3).3),
        FieldV::U32(color_slot(c, 3).4),
        FieldV::U32(color_slot(c, 4).0),
        FieldV::U32(color_slot(c, 4).1),
        FieldV::U32(color_slot(c, 4).2),
        FieldV::U32(color_slot(c, 4).3),
        FieldV::U32(color_slot(c, 4).4),
        FieldV::U32(color_slot(c, 5).0),
        FieldV::U32(color_slot(c, 5).1),
        FieldV::U32(color_slot(c, 5).2),
        FieldV::U32(color_slot(c, 5).3),
        FieldV::U32(color_slot(c, 5).4),
    ]
}

/// The growth factor fields.
pub open spec fn growth_fields(o: Option<Seq<Range>>) -> Seq<FieldV> {
    let g = item_list(o);
    seq![
        FieldV::U32(g.len() as u32),
        FieldV::U32(growth_slot(g, 0).min),
        FieldV::U32(growth_slot(g, 0).max),
        FieldV::U32(growth_slot(g, 1).min),
        FieldV::U32(growth_slot(g, 1).max),
        FieldV::U32(growth_slot(g, 2).min),
        FieldV::U32(growth_slot(g, 2).max),
        FieldV::U32(growth_slot(g, 3).min),
        FieldV::U32(growth_slot(g, 3).max),
        FieldV::U32(growth_slot(g, 4).min),
        FieldV::U32(growth_slot(g, 4).max),
        FieldV::U32(growth_slot(g, 5).min),
        FieldV::U32(growth_slot(g, 5).max),
    ]
}

/// The record of an event, if it can be written: the common part can be
/// written, and the textures, colours and growth factors fit their slots.
pub open spec fn serialize(ad: AnimDefV, v: PufferStateV) -> Option<Seq<u8>> {
    match common_fields(
        ad,
        v.common,
        v.textures is Some,
        v.colors is Some,
        v.growth_factors is Some,
        v.number is Some,
    ) {
        Some(cf) => if textures_writable(v.textures) && fits_slots(v.colors) && fits_slots(
            v.growth_factors,
        ) {
            Some(
                encode(cf) + encode(texture_fields(v.textures)) + encode(color_fields(v.colors))
                    + encode(growth_fields(v.growth_factors)),
            )
        } else {
            None
        },
        None => None,
    }
}

fn opt_vec_exec(set: bool, v: Vec3) -> (r: Result<Option<Vec3>, Error>)
    ensures
        match opt_vec(set, v) {
            Some(o) => r == Ok::<Option<Vec3>, Error>(o),
            None => r == Err::<Option<Vec3>, Error>(Error::Invalid),
        },
{
    if set {
        Ok(Some(v))
    } else if vec3_is_zero_exec(v) {
        Ok(None)
    } else {
        Err(Error::Invalid)
    }
}

fn opt_range_exec(set: bool, r: Range, ok: bool) -> (res: Result<Option<Range>, Error>)
    ensures
        match opt_range(set, r, ok) {
            Some(o) => res == Ok::<Option<Range>, Error>(o),
            None => res == Err::<Option<Range>, Error>(Error::Invalid),
        },
{
    if set {
        if ok {
            Ok(Some(r))
        } else {
            Err(Error::Invalid)
        }
    } else if range_is_zero_exec(r) {
        Ok(None)
    } else {
        Err(Error::Invalid)
    }
}

fn opt_value_exec(set: bool, x: u32, ok: bool) -> (r: Result<Option<u32>, Error>)
    ensures
        match opt_value(set, x, ok) {
            Some(o) => r == Ok::<Option<u32>, Error>(o),
            None => r == Err::<Option<u32>, Error>(Error::Invalid),
        },
{
    if set {
        if ok {
            Ok(Some(x))
        } else {
            Err(Error::Invalid)
        }
    } else if float::f32_is_zero(x) {
        Ok(None)
    } else {
        Err(Error::Invalid)
    }
}

fn interval_exec(fl: u32, t: bool, value: u32) -> (r: Result<
    (Option<PufferInterval>, Option<PufferIntervalGarbage>),
    Error,
>)
    ensures
        match interval_of(fl, t, value) {
            Some(o) => r == Ok::<(Option<PufferInterval>, Option<PufferIntervalGarbage>), Error>(o),
            None => r == Err::<(Option<PufferInterval>, Option<PufferIntervalGarbage>), Error>(
                Error::Invalid,
            ),
        },
{
    let ty = if t {
        PufferIntervalType::Distance
    } else {
        PufferIntervalType::Time
    };
    let has_type = bit_exec(fl, INTERVAL_TYPE);
    let has_value = bit_exec(fl, INTERVAL_VALUE);
    if has_type && has_value {
        if float::f32_le(float::ZERO, value) {
            Ok((Some(PufferInterval { interval_type: ty, interval_value: value }), None))
        } else {
            Err(Error::Invalid)
        }
    } else {
        Ok(
            (
                None,
                Some(
                    PufferIntervalGarbage {
                        interval_type: ty,
                        has_interval_type: has_type,
                        interval_value: value,
                        has_interval_value: has_value,
                    },
                ),
            ),
        )
    }
}

/// Reads the vectors of the common fields.
fn read_vecs(fl: u32, f: &Vec<Fld>) -> (r: Result<(Option<Vec3>, Option<Vec3>, Option<Vec3>, Option<Vec3>, Option<Vec3>, Option<Vec3>), Error>)
    requires
        conforms_all(fields_view(f@), common_layout()),
    ensures
        match vecs_part(fl, fields_view(f@)) {
            Some(v) => r == Ok::<(Option<Vec3>, Option<Vec3>, Option<Vec3>, Option<Vec3>, Option<Vec3>, Option<Vec3>), Error>(v),
            None => r == Err::<(Option<Vec3>, Option<Vec3>, Option<Vec3>, Option<Vec3>, Option<Vec3>, Option<Vec3>), Error>(Error::Invalid),
        },
{
    let ghost fv = fields_view(f@);
    assert forall|i: int| 1 <= i < 39 implies fv[i] is U32 by {
        assert(conforms(fv[i], common_layout()[i]));
    }
    let translate = opt_vec_exec(
        bit_exec(fl, TRANSLATE_ABS),
        Vec3 { x: get_u32(f, 5), y: get_u32(f, 6), z: get_u32(f, 7) },
    )?;
    let local_velocity = opt_vec_exec(
        bit_exec(fl, LOCAL_VELOCITY),
        Vec3 { x: get_u32(f, 8), y: get_u32(f, 9), z: get_u32(f, 10) },
    )?;
    let world_velocity = opt_vec_exec(
        bit_exec(fl, WORLD_VELOCITY),
        Vec3 { x: get_u32(f, 11), y: get_u32(f, 12), z: get_u32(f, 13) },
    )?;
    let min_random_velocity = opt_vec_exec(
        bit_exec(fl, MIN_RANDOM_VELOCITY),
        Vec3 { x: get_u32(f, 14), y: get_u32(f, 15), z: get_u32(f, 16) },
    )?;
    let max_random_velocity = opt_vec_exec(
        bit_exec(fl, MAX_RANDOM_VELOCITY),
        Vec3 { x: get_u32(f, 17), y: get_u32(f, 18), z: get_u32(f, 19) },
    )?;
    let world_acceleration = opt_vec_exec(
        bit_exec(fl, WORLD_ACCELERATION),
        Vec3 { x: get_u32(f, 20), y: get_u32(f, 21), z: get_u32(f, 22) },
    )?;
    Ok((translate, local_velocity, world_velocity, min_random_velocity, max_random_velocity, world_acceleration))
}

/// Reads the ranges and values of the common fields.
fn read_scalars(fl: u32, f: &Vec<Fld>) -> (r: Result<(Option<Range>, Option<Range>, Option<Range>, Option<Range>, Option<Range>, Option<u32>, Option<u32>, Option<u32>, Option<u32>), Error>)
    requires
        conforms_all(fields_view(f@), common_layout()),
    ensures
        match scalars_part(fl, fields_view(f@)) {
            Some(v) => r == Ok::<(Option<Range>, Option<Range>, Option<Range>, Option<Range>, Option<Range>, Option<u32>, Option<u32>, Option<u32>, Option<u32>), Error>(v),
            None => r == Err::<(Option<Range>, Option<Range>, Option<Range>, Option<Range>, Option<Range>, Option<u32>, Option<u32>, Option<u32>, Option<u32>), Error>(Error::Invalid),
        },
{
    let ghost fv = fields_view(f@);
    assert forall|i: int| 1 <= i < 39 implies fv[i] is U32 by {
        assert(conforms(fv[i], common_layout()[i]));
    }
    let r = Range { min: get_u32(f, 25), max: get_u32(f, 26) };
    let size_range = opt_range_exec(bit_exec(fl, SIZE_RANGE), r, float::f32_lt(float::ZERO, r.min) && float::f32_lt(r.min, r.max))?;
    let r = Range { min: get_u32(f, 27), max: get_u32(f, 28) };
    let lifetime_range = opt_range_exec(bit_exec(fl, LIFETIME_RANGE), r, float::f32_lt(float::ZERO, r.min) && float::f32_lt(float::ZERO, r.max))?;
    let r = Range { min: get_u32(f, 29), max: get_u32(f, 30) };
    let start_age_range = opt_range_exec(bit_exec(fl, START_AGE_RANGE), r, float::f32_le(float::ZERO, r.min) && float::f32_lt(r.min, r.max))?;
    let r = Range { min: get_u32(f, 32), max: get_u32(f, 33) };
    let unk_range = opt_range_exec(bit_exec(fl, UNKNOWN_RANGE), r, float::f32_lt(float::ZERO, r.min) && float::f32_le(r.min, r.max))?;
    let r = Range { min: get_u32(f, 34), max: get_u32(f, 35) };
    let fade_range = opt_range_exec(bit_exec(fl, FADE_RANGE), r, float::f32_lt(float::ZERO, r.min) && float::f32_lt(r.min, r.max))?;
    let x = get_u32(f, 31);
    let deviation_distance = opt_value_exec(bit_exec(fl, DEVIATION_DISTANCE), x, float::f32_lt(float::ZERO, x))?;
    let x = get_u32(f, 36);
    let friction = opt_value_exec(bit_exec(fl, FRICTION), x, float::f32_le(float::ZERO, x))?;
    let x = get_u32(f, 37);
    let wind_factor = opt_value_exec(bit_exec(fl, WIND_FACTOR), x, float::f32_le(float::ZERO, x))?;
    let x = get_u32(f, 38);
    let priority = opt_value_exec(bit_exec(fl, PRIORITY), x, float::f32_le(float::ZERO, x))?;
    Ok((size_range, lifetime_range, start_age_range, unk_range, fade_range, deviation_distance, friction, wind_factor, priority))
}

/// Reads the values of the common fields.
fn read_common(f: &Vec<Fld>, ad: &AnimDef) -> (r: Result<PufferCommon<Vec<u8>>, Error>)
    requires
        conforms_all(fields_view(f@), common_layout()),
    ensures
        match common_part(ad@, fields_view(f@)) {
            Some(c) => r matches Ok(x) && x.deep_view() == c,
            None => r == Err::<PufferCommon<Vec<u8>>, Error>(Error::Invalid),
        },
{
    let ghost fv = fields_view(f@);
    assert forall|i: int| 1 <= i < 39 implies fv[i] is U32 by {
        assert(conforms(fv[i], common_layout()[i]));
    }
    assert(fv[0] is Bytes) by {
        assert(conforms(fv[0], common_layout()[0]));
    }
    let fl = get_u32(f, 2);
    if fl >= 0x80_0000 {
        return Err(Error::Invalid);
    }
    let active = bit_exec(fl, ACTIVE_STATE);
    if !active && fl != 0 {
        return Err(Error::Invalid);
    }
    let name = match unpad_exec(get_bytes(f, 0)) {
        Some(n) => n,
        None => return Err(Error::Invalid),
    };
    let expected = ad.puffer_from_index(get_u32(f, 1))?;
    if !bytes_eq(&name, &expected) {
        return Err(Error::Invalid);
    }
    let active_raw = get_u32(f, 4);
    let active_state = if active {
        if active_raw <= 10 {
            Some(active_raw)
        } else {
            return Err(Error::Invalid);
        }
    } else if active_raw == 0 {
        None
    } else {
        return Err(Error::Invalid);
    };
    let node_raw = get_u32(f, 3);
    let at_node = if bit_exec(fl, AT_NODE) {
        Some(ad.node_from_index(node_raw)?)
    } else if node_raw == NO_NODE {
        None
    } else {
        return Err(Error::Invalid);
    };
    let t = match bool32_exec(get_u32(f, 23)) {
        Some(b) => b,
        None => return Err(Error::Invalid),
    };
    let (interval, interval_garbage) = interval_exec(fl, t, get_u32(f, 24))?;
    let (translate, local_velocity, world_velocity, min_random_velocity, max_random_velocity, world_acceleration) = read_vecs(fl, f)?;
    let (size_range, lifetime_range, start_age_range, unk_range, fade_range, deviation_distance, friction, wind_factor, priority) = read_scalars(fl, f)?;
    Ok(
        PufferCommon {
            name,
            active_state,
            at_node,
            interval,
            interval_garbage,
            translate,
            local_velocity,
            world_velocity,
            min_random_velocity,
            max_random_velocity,
            world_acceleration,
            size_range,
            lifetime_range,
            start_age_range,
            unk_range,
            fade_range,
            deviation_distance,
            friction,
            wind_factor,
            priority,
        },
    )
}

fn slot_is_zero_exec(f: &Vec<Fld>, i: usize) -> (r: bool)
    requires
        i < 6,
        conforms_all(fields_view(f@), textures_layout()),
    ensures
        r == slot_is_zero(fields_view(f@), i as int),
{
    proof {
        lemma_texture_kinds(fields_view(f@));
        assert(texture_slot_fields(fields_view(f@), i as int));
    }
    float::f32_is_zero(get_u32(f, 1 + 2 * i)) && all_zero_exec(get_bytes(f, 2 + 2 * i))
}

fn named_slots_exec(f: &Vec<Fld>) -> (n: usize)
    requires
        conforms_all(fields_view(f@), textures_layout()),
    ensures
        n == named_slots(fields_view(f@), 6),
        n <= 6,
{
    let ghost fv = fields_view(f@);
    proof {
        lemma_texture_kinds(fv);
    }
    let mut k: usize = 6;
    while k > 0
        invariant
            k <= 6,
            fv == fields_view(f@),
            conforms_all(fv, textures_layout()),
            named_slots(fv, 6) == named_slots(fv, k as nat),
            forall|i: int| 0 <= i < 6 ==> #[trigger] texture_slot_fields(fv, i),
        decreases k,
    {
        assert(texture_slot_fields(fv, k - 1));
        let b = get_bytes(f, 2 * k);
        assert(slot_name(fv, k - 1) == b@);
        if b[0] != 0 {
            return k;
        }
        k = k - 1;
    }
    0
}

/// The textures of the texture fields.
fn read_textures(fl: u32, f: &Vec<Fld>) -> (r: Result<
    Option<Vec<PufferStateTexture<Vec<u8>>>>,
    Error,
>)
    requires
        conforms_all(fields_view(f@), textures_layout()),
    ensures
        match textures_part(fl, fields_view(f@)) {
            Some(t) => r matches Ok(x) && x.deep_view() == t,
            None => r == Err::<Option<Vec<PufferStateTexture<Vec<u8>>>>, Error>(Error::Invalid),
        },
{
    let ghost fv = fields_view(f@);
    proof {
        lemma_texture_kinds(fv);
    }
    let has_rt = match bool32_exec(get_u32(f, 0)) {
        Some(b) => b,
        None => return Err(Error::Invalid),
    };
    let n = named_slots_exec(f);
    if bit_exec(fl, TEXTURES) {
        if n == 0 {
            return Err(Error::Invalid);
        }
        let mut out: Vec<PufferStateTexture<Vec<u8>>> = Vec::new();
        let mut i: usize = 0;
        while i < 6
            invariant
                i <= 6,
                0 < n <= 6,
                fv == fields_view(f@),
                conforms_all(fv, textures_layout()),
                n == named_slots(fv, 6),
                bool_of(w32(fv, 0) as int) == Some(has_rt),
                bit(fl, TEXTURES),
                forall|k: int| 0 <= k < 6 ==> #[trigger] texture_slot_fields(fv, k),
                out.deep_view() == Seq::new(
                    (if i < n { i } else { n }) as nat,
                    |k: int| texture_of(fv, k, has_rt).unwrap(),
                ),
                forall|k: int| 0 <= k < i && k < n ==> #[trigger] texture_of(fv, k, has_rt) is Some,
                forall|k: int| n <= k < i ==> #[trigger] slot_is_zero(fv, k),
            decreases 6 - i,
        {
            let zero = slot_is_zero_exec(f, i);
            assert(texture_slot_fields(fv, i as int));
            let rt = get_u32(f, 1 + 2 * i);
            if i < n {
                if zero || (!has_rt && !float::f32_is_zero(rt)) {
                    assert(texture_of(fv, i as int, has_rt) is None);
                    return Err(Error::Invalid);
                }
                let name = match unpad_exec(get_bytes(f, 2 + 2 * i)) {
                    Some(x) => x,
                    None => {
                        assert(texture_of(fv, i as int, has_rt) is None);
                        return Err(Error::Invalid);
                    },
                };
                let ghost before = out.deep_view();
                let tex = PufferStateTexture {
                    name,
                    run_time: if has_rt {
                        Some(rt)
                    } else {
                        None
                    },
                };
                assert(tex.deep_view() == texture_of(fv, i as int, has_rt).unwrap());
                out.push(tex);
                proof {
                    assert(out.deep_view() =~= before.push(tex.deep_view()));
                    assert(out.deep_view() =~= Seq::new(
                        (i + 1) as nat,
                        |k: int| texture_of(fv, k, has_rt).unwrap(),
                    ));
                }
            } else if !zero {
                assert(!slot_is_zero(fv, i as int));
                return Err(Error::Invalid);
            }
            i = i + 1;
        }
        Ok(Some(out))
    } else {
        let mut i: usize = 0;
        while i < 6
            invariant
                i <= 6,
                fv == fields_view(f@),
                conforms_all(fv, textures_layout()),
                !bit(fl, TEXTURES),
                bool_of(w32(fv, 0) as int) == Some(has_rt),
                forall|k: int| 0 <= k < i ==> #[trigger] slot_is_zero(fv, k),
            decreases 6 - i,
        {
            if !slot_is_zero_exec(f, i) {
                assert(!slot_is_zero(fv, i as int));
                return Err(Error::Invalid);
            }
            i = i + 1;
        }
        Ok(None)
    }
}

fn color_exec(f: &Vec<Fld>, i: usize) -> (r: PufferStateColor)
    requires
        i < 6,
        conforms_all(fields_view(f@), colors_layout()),
    ensures
        r == color_at(fields_view(f@), i as int),
{
    let ghost fv = fields_view(f@);
    assert forall|k: int| 0 <= k < 31 implies fv[k] is U32 by {
        assert(conforms(fv[k], colors_layout()[k]));
    }
    PufferStateColor(
        get_u32(f, 1 + 5 * i),
        get_u32(f, 2 + 5 * i),
        get_u32(f, 3 + 5 * i),
        get_u32(f, 4 + 5 * i),
        get_u32(f, 5 + 5 * i),
    )
}

fn color_is_zero_exec(c: PufferStateColor) -> (r: bool)
    ensures
        r == color_is_zero(c),
{
    float::f32_is_zero(c.0) && float::f32_is_zero(c.1) && float::f32_is_zero(c.2)
        && float::f32_is_zero(c.3) && float::f32_is_zero(c.4)
}

/// The colours of the colour fields.
fn read_colors(fl: u32, f: &Vec<Fld>) -> (r: Result<Option<Vec<PufferStateColor>>, Error>)
    requires
        conforms_all(fields_view(f@), colors_layout()),
    ensures
        match colors_part(fl, fields_view(f@)) {
            Some(c) => r matches Ok(x) && opt_seq(&x) == c,
            None => r == Err::<Option<Vec<PufferStateColor>>, Error>(Error::Invalid),
        },
{
    let ghost fv = fields_view(f@);
    assert(fv[0] is U32) by {
        assert(conforms(fv[0], colors_layout()[0]));
    }
    let n = get_u32(f, 0);
    if bit_exec(fl, COLORS) {
        if n < 1 || n > 5 {
            return Err(Error::Invalid);
        }
        let n = n as usize;
        let mut out: Vec<PufferStateColor> = Vec::new();
        let mut i: usize = 0;
        while i < 6
            invariant
                i <= 6,
                1 <= n <= 5,
                n == w32(fv, 0),
                fv == fields_view(f@),
                conforms_all(fv, colors_layout()),
                bit(fl, COLORS),
                out@ == Seq::new((if i < n { i } else { n }) as nat, |k: int| color_at(fv, k)),
                forall|k: int| 0 <= k < i && k < n ==> !color_is_zero(#[trigger] color_at(fv, k)),
                forall|k: int| n <= k < i ==> color_is_zero(#[trigger] color_at(fv, k)),
            decreases 6 - i,
        {
            let c = color_exec(f, i);
            let zero = color_is_zero_exec(c);
            if i < n {
                if zero {
                    return Err(Error::Invalid);
                }
                out.push(c);
                proof {
                    assert(out@ =~= Seq::new((i + 1) as nat, |k: int| color_at(fv, k)));
                }
            } else if !zero {
                return Err(Error::Invalid);
            }
            i = i + 1;
        }
        Ok(Some(out))
    } else {
        if n != 0 {
            return Err(Error::Invalid);
        }
        let mut i: usize = 0;
        while i < 6
            invariant
                i <= 6,
                fv == fields_view(f@),
                conforms_all(fv, colors_layout()),
                !bit(fl, COLORS),
                w32(fv, 0) == 0,
                forall|k: int| 0 <= k < i ==> color_is_zero(#[trigger] color_at(fv, k)),
            decreases 6 - i,
        {
            if !color_is_zero_exec(color_exec(f, i)) {
                return Err(Error::Invalid);
            }
            i = i + 1;
        }
        Ok(None)
    }
}

fn growth_exec(f: &Vec<Fld>, i: usize) -> (r: Range)
    requires
        i < 6,
        conforms_all(fields_view(f@), growths_layout()),
    ensures
        r == growth_at(fields_view(f@), i as int),
{
    let ghost fv = fields_view(f@);
    assert forall|k: int| 0 <= k < 13 implies fv[k] is U32 by {
        assert(conforms(fv[k], growths_layout()[k]));
    }
    Range { min: get_u32(f, 1 + 2 * i), max: get_u32(f, 2 + 2 * i) }
}

/// The growth factors of their fields.
fn read_growths(fl: u32, f: &Vec<Fld>) -> (r: Result<Option<Vec<Range>>, Error>)
    requires
        conforms_all(fields_view(f@), growths_layout()),
    ensures
        match growths_part(fl, fields_view(f@)) {
            Some(g) => r matches Ok(x) && opt_seq(&x) == g,
            None => r == Err::<Option<Vec<Range>>, Error>(Error::Invalid),
        },
{
    let ghost fv = fields_view(f@);
    assert(fv[0] is U32) by {
        assert(conforms(fv[0], growths_layout()[0]));
    }
    let n = get_u32(f, 0);
    if bit_exec(fl, GROWTH_FACTORS) {
        if n < 1 || n > 5 {
            return Err(Error::Invalid);
        }
        let n = n as usize;
        let mut out: Vec<Range> = Vec::new();
        let mut i: usize = 0;
        while i < 6
            invariant
                i <= 6,
                1 <= n <= 5,
                n == w32(fv, 0),
                fv == fields_view(f@),
                conforms_all(fv, growths_layout()),
                bit(fl, GROWTH_FACTORS),
                out@ == Seq::new((if i < n { i } else { n }) as nat, |k: int| growth_at(fv, k)),
                forall|k: int| 0 <= k < i && k < n ==> !range_is_zero(#[trigger] growth_at(fv, k)),
                forall|k: int| n <= k < i ==> range_is_zero(#[trigger] growth_at(fv, k)),
            decreases 6 - i,
        {
            let g = growth_exec(f, i);
            let zero = range_is_zero_exec(g);
            if i < n {
                if zero {
                    return Err(Error::Invalid);
                }
                out.push(g);
                proof {
                    assert(out@ =~= Seq::new((i + 1) as nat, |k: int| growth_at(fv, k)));
                }
            } else if !zero {
                return Err(Error::Invalid);
            }
            i = i + 1;
        }
        Ok(Some(out))
    } else {
        if n != 0 {
            return Err(Error::Invalid);
        }
        let mut i: usize = 0;
        while i < 6
            invariant
                i <= 6,
                fv == fields_view(f@),
                conforms_all(fv, growths_layout()),
                !bit(fl, GROWTH_FACTORS),
                w32(fv, 0) == 0,
                forall|k: int| 0 <= k < i ==> range_is_zero(#[trigger] growth_at(fv, k)),
            decreases 6 - i,
        {
            if !range_is_zero_exec(growth_exec(f, i)) {
                return Err(Error::Invalid);
            }
            i = i + 1;
        }
        Ok(None)
    }
}

/// Reads a `PUFFER_STATE` record.
pub fn read(data: &[u8], ad: &AnimDef) -> (r: Result<PufferState, Error>)
    ensures
        match parse(ad@, data@) {
            Some(v) => r matches Ok(x) && x.deep_view() == v,
            None => r == Err::<PufferState, Error>(Error::Invalid),
        },
{
    if data.len() != 580 {
        return Err(Error::Invalid);
    }
    proof {
        lemma_layout_sizes();
    }
    let d0 = slice_subrange(data, 0, 184);
    let d1 = slice_subrange(data, 184, 404);
    let d2 = slice_subrange(data, 404, 528);
    let d3 = slice_subrange(data, 528, 580);
    let l0 = common_layout_exec();
    let l1 = textures_layout_exec();
    let l2 = u32_layout(31);
    let l3 = u32_layout(13);
    let f0 = decode_record(d0, l0.as_slice());
    let f1 = decode_record(d1, l1.as_slice());
    let f2 = decode_record(d2, l2.as_slice());
    let f3 = decode_record(d3, l3.as_slice());
    assert(fields_view(f0@)[2] is U32) by {
        assert(conforms(fields_view(f0@)[2], common_layout()[2]));
    }
    let fl = get_u32(&f0, 2);
    let common = read_common(&f0, ad)?;
    let textures = read_textures(fl, &f1)?;
    let colors = read_colors(fl, &f2)?;
    let growth_factors = read_growths(fl, &f3)?;
    Ok(PufferState { common, number: None, textures, colors, growth_factors })
}

fn type_value_exec(t: PufferIntervalType) -> (r: u32)
    ensures
        r == type_value(t),
{
    match t {
        PufferIntervalType::Time => 0,
        PufferIntervalType::Distance => 1,
    }
}

fn interval_bits_exec(c: &PufferCommon<Vec<u8>>) -> (r: (bool, bool))
    ensures
        r == interval_bits(c.interval, c.interval_garbage),
{
    match (&c.interval, &c.interval_garbage) {
        (Some(_), _) => (true, true),
        (None, Some(g)) => (g.has_interval_type, g.has_interval_value),
        (None, None) => (false, false),
    }
}

fn interval_values_exec(c: &PufferCommon<Vec<u8>>) -> (r: (u32, u32))
    ensures
        r == interval_values(c.interval, c.interval_garbage),
{
    match (&c.interval, &c.interval_garbage) {
        (Some(i), _) => (type_value_exec(i.interval_type), i.interval_value),
        (None, Some(g)) => (type_value_exec(g.interval_type), g.interval_value),
        (None, None) => (0, 0),
    }
}

fn vec_or_zero_exec(v: Option<Vec3>) -> (r: Vec3)
    ensures
        r == vec_or_zero(v),
{
    match v {
        Some(v) => v,
        None => Vec3 { x: 0, y: 0, z: 0 },
    }
}

fn range_or_zero_exec(r: Option<Range>) -> (res: Range)
    ensures
        res == range_or_zero(r),
{
    match r {
        Some(r) => r,
        None => Range { min: 0, max: 0 },
    }
}

fn value_or_zero_exec(x: Option<u32>) -> (r: u32)
    ensures
        r == value_or_zero(x),
{
    match x {
        Some(x) => x,
        None => 0,
    }
}

/// The fields of the common part of an event.
#[verifier::spinoff_prover]
#[verifier::rlimit(40)]
fn common_fields_exec(v: &PufferState, ad: &AnimDef) -> (r: Result<Vec<Fld>, Error>)
    ensures
        match common_fields(
            ad@,
            v.deep_view().common,
            v.textures is Some,
            v.colors is Some,
            v.growth_factors is Some,
            v.number is Some,
        ) {
            Some(g) => r matches Ok(fs) && fields_view(fs@) == g,
            None => r == Err::<Vec<Fld>, Error>(Error::Invalid),
        },
{
    let c = &v.common;
    let nb = match pad_exec(&c.name, 32) {
        Some(b) => b,
        None => return Err(Error::Invalid),
    };
    let pi = ad.puffer_to_index(&c.name)?;
    let ni: u32 = match &c.at_node {
        Some(n) => {
            let i = ad.node_to_index(n)?;
            i as u32
        },
        None => NO_NODE,
    };
    let ib = interval_bits_exec(c);
    let iv = interval_values_exec(c);
    let textures = v.textures.is_some();
    let colors = v.colors.is_some();
    let growths = v.growth_factors.is_some();
    let number = v.number.is_some();
    let fl = word_exec(
        c.translate.is_some(),
        c.at_node.is_some(),
        c.active_state.is_some(),
        c.local_velocity.is_some(),
        c.world_velocity.is_some(),
        c.min_random_velocity.is_some(),
        c.max_random_velocity.is_some(),
        ib.0,
        ib.1,
        c.size_range.is_some(),
        c.lifetime_range.is_some(),
        c.deviation_distance.is_some(),
        c.fade_range.is_some(),
        growths,
        textures,
        c.start_age_range.is_some(),
        c.world_acceleration.is_some(),
        c.friction.is_some(),
        colors,
        c.unk_range.is_some(),
        c.wind_factor.is_some(),
        number,
        c.priority.is_some(),
    );
    let w_translate = vec_or_zero_exec(c.translate);
    let w_local_velocity = vec_or_zero_exec(c.local_velocity);
    let w_world_velocity = vec_or_zero_exec(c.world_velocity);
    let w_min_random_velocity = vec_or_zero_exec(c.min_random_velocity);
    let w_max_random_velocity = vec_or_zero_exec(c.max_random_velocity);
    let w_world_acceleration = vec_or_zero_exec(c.world_acceleration);
    let w_size_range = range_or_zero_exec(c.size_range);
    let w_lifetime_range = range_or_zero_exec(c.lifetime_range);
    let w_start_age_range = range_or_zero_exec(c.start_age_range);
    let w_deviation_distance = value_or_zero_exec(c.deviation_distance);
    let w_unk_range = range_or_zero_exec(c.unk_range);
    let w_fade_range = range_or_zero_exec(c.fade_range);
    let w_friction = value_or_zero_exec(c.friction);
    let w_wind_factor = value_or_zero_exec(c.wind_factor);
    let w_priority = value_or_zero_exec(c.priority);
    let ghost cv = v.deep_view().common;
    assert(fl == flags_of(cv, textures, colors, growths, number)) by {
        reveal(flags_of);
    }
    let mut fs = vec![
        Fld::Bytes(nb),
        Fld::U32(pi as u32),
        Fld::U32(fl),
        Fld::U32(ni),
        Fld::U32(value_or_zero_exec(c.active_state)),
    ];
    let mut fsv = vec![
        Fld::U32(w_translate.x),
        Fld::U32(w_translate.y),
        Fld::U32(w_translate.z),
        Fld::U32(w_local_velocity.x),
        Fld::U32(w_local_velocity.y),
        Fld::U32(w_local_velocity.z),
        Fld::U32(w_world_velocity.x),
        Fld::U32(w_world_velocity.y),
        Fld::U32(w_world_velocity.z),
        Fld::U32(w_min_random_velocity.x),
        Fld::U32(w_min_random_velocity.y),
        Fld::U32(w_min_random_velocity.z),
        Fld::U32(w_max_random_velocity.x),
        Fld::U32(w_max_random_velocity.y),
        Fld::U32(w_max_random_velocity.z),
        Fld::U32(w_world_acceleration.x),
        Fld::U32(w_world_acceleration.y),
        Fld::U32(w_world_acceleration.z),
    ];
    let mut fsi = vec![Fld::U32(iv.0), Fld::U32(iv.1)];
    let mut fss = vec![
        Fld::U32(w_size_range.min),
        Fld::U32(w_size_range.max),
        Fld::U32(w_lifetime_range.min),
        Fld::U32(w_lifetime_range.max),
        Fld::U32(w_start_age_range.min),
        Fld::U32(w_start_age_range.max),
        Fld::U32(w_deviation_distance),
        Fld::U32(w_unk_range.min),
        Fld::U32(w_unk_range.max),
        Fld::U32(w_fade_range.min),
        Fld::U32(w_fade_range.max),
        Fld::U32(w_friction),
        Fld::U32(w_wind_factor),
        Fld::U32(w_priority),
    ];
    proof {
        assert(fields_view(fsv@) =~= vec_fields(cv));
        assert(fields_view(fss@) =~= scalar_fields(cv));
    }
    let ghost a = fs@;
    let ghost b = fsv@;
    let ghost ci = fsi@;
    let ghost d = fss@;
    fs.append(&mut fsv);
    fs.append(&mut fsi);
    fs.append(&mut fss);
    proof {
        assert(fs@ =~= a + b + ci + d);
        assert(fields_view(fs@) =~= fields_view(a) + fields_view(b) + fields_view(ci) + fields_view(d));
        assert(fields_view(fs@) =~= common_fields(
            ad@,
            cv,
            textures,
            colors,
            growths,
            number,
        ).unwrap());
    }
    Ok(fs)
}

fn has_run_times_exec(t: &Vec<PufferStateTexture<Vec<u8>>>) -> (r: bool)
    ensures
        r == has_run_times(t.deep_view()),
{
    let ghost s = t.deep_view();
    let mut i: usize = 0;
    while i < t.len()
        invariant
            i <= t@.len(),
            s == t.deep_view(),
            forall|k: int| 0 <= k < i ==> (#[trigger] s[k]).run_time is None,
        decreases t@.len() - i,
    {
        if t[i].run_time.is_some() {
            assert(s[i as int].run_time is Some);
            return true;
        }
        i = i + 1;
    }
    false
}

fn slot_exec(t: &Vec<PufferStateTexture<Vec<u8>>>, i: usize) -> (r: Result<(u32, Vec<u8>), Error>)
    ensures
        i < t@.len() ==> match pad(t.deep_view()[i as int].name, 32) {
            Some(b) => r matches Ok(x) && x.0 == slot_rt_of(t.deep_view(), i as int) && x.1@ == b,
            None => r == Err::<(u32, Vec<u8>), Error>(Error::Invalid),
        },
        i >= t@.len() ==> (r matches Ok(x) && x.0 == 0 && x.1@ == zeros(32)),
{
    if i < t.len() {
        let b = match pad_exec(&t[i].name, 32) {
            Some(b) => b,
            None => return Err(Error::Invalid),
        };
        let rt = value_or_zero_exec(t[i].run_time);
        Ok((rt, b))
    } else {
        Ok((0, zeros_exec(32)))
    }
}

/// The texture fields of an event's textures.
fn texture_fields_exec(t: &Option<Vec<PufferStateTexture<Vec<u8>>>>) -> (r: Result<Vec<Fld>, Error>)
    ensures
        textures_writable(t.deep_view()) ==> (r matches Ok(fs) && fields_view(fs@)
            == texture_fields(t.deep_view())),
        !textures_writable(t.deep_view()) ==> r == Err::<Vec<Fld>, Error>(Error::Invalid),
{
    let empty: Vec<PufferStateTexture<Vec<u8>>> = Vec::new();
    let s = match t {
        Some(s) => s,
        None => &empty,
    };
    let ghost sv = s.deep_view();
    assert(sv =~= texture_list(t.deep_view()));
    if s.len() > 6 {
        return Err(Error::Invalid);
    }
    let h = has_run_times_exec(s);
    let (r0, n0) = slot_exec(s, 0)?;
    let (r1, n1) = slot_exec(s, 1)?;
    let (r2, n2) = slot_exec(s, 2)?;
    let (r3, n3) = slot_exec(s, 3)?;
    let (r4, n4) = slot_exec(s, 4)?;
    let (r5, n5) = slot_exec(s, 5)?;
    proof {
        assert forall|i: int| 0 <= i < sv.len() implies #[trigger] pad(sv[i].name, 32) is Some by {
            if i == 0 {
            } else if i == 1 {
            } else if i == 2 {
            } else if i == 3 {
            } else if i == 4 {
            } else {
            }
        }
        assert(slot_rt_of(sv, 0) == r0 && slot_name_of(sv, 0) == n0@);
        assert(slot_rt_of(sv, 1) == r1 && slot_name_of(sv, 1) == n1@);
        assert(slot_rt_of(sv, 2) == r2 && slot_name_of(sv, 2) == n2@);
        assert(slot_rt_of(sv, 3) == r3 && slot_name_of(sv, 3) == n3@);
        assert(slot_rt_of(sv, 4) == r4 && slot_name_of(sv, 4) == n4@);
        assert(slot_rt_of(sv, 5) == r5 && slot_name_of(sv, 5) == n5@);
    }
    let fs = vec![
        Fld::U32(
            if h {
                1u32
            } else {
                0u32
            },
        ),
        Fld::U32(r0),
        Fld::Bytes(n0),
        Fld::U32(r1),
        Fld::Bytes(n1),
        Fld::U32(r2),
        Fld::Bytes(n2),
        Fld::U32(r3),
        Fld::Bytes(n3),
        Fld::U32(r4),
        Fld::Bytes(n4),
        Fld::U32(r5),
        Fld::Bytes(n5),
    ];
    proof {
        assert(fields_view(fs@) =~= texture_fields(t.deep_view()));
    }
    Ok(fs)
}

fn color_slot_exec(c: &Vec<PufferStateColor>, i: usize) -> (r: PufferStateColor)
    ensures
        r == color_slot(c@, i as int),
{
    if i < c.len() {
        c[i]
    } else {
        PufferStateColor(0, 0, 0, 0, 0)
    }
}

/// The colour fields of an event's colours.
fn color_fields_exec(o: &Option<Vec<PufferStateColor>>) -> (r: Result<Vec<Fld>, Error>)
    ensures
        fits_slots(opt_seq(o)) ==> (r matches Ok(fs) && fields_view(fs@) == color_fields(
            opt_seq(o),
        )),
        !fits_slots(opt_seq(o)) ==> r == Err::<Vec<Fld>, Error>(Error::Invalid),
{
    let empty: Vec<PufferStateColor> = Vec::new();
    let c = match o {
        Some(c) => c,
        None => &empty,
    };
    assert(c@ =~= item_list(opt_seq(o)));
    if c.len() > 6 {
        return Err(Error::Invalid);
    }
    let n = c.len() as u32;
    let c0 = color_slot_exec(c, 0);
    let c1 = color_slot_exec(c, 1);
    let c2 = color_slot_exec(c, 2);
    let c3 = color_slot_exec(c, 3);
    let c4 = color_slot_exec(c, 4);
    let c5 = color_slot_exec(c, 5);
    let fs = vec![
        Fld::U32(n),
        Fld::U32(c0.0),
        Fld::U32(c0.1),
        Fld::U32(c0.2),
        Fld::U32(c0.3),
        Fld::U32(c0.4),
        Fld::U32(c1.0),
        Fld::U32(c1.1),
        Fld::U32(c1.2),
        Fld::U32(c1.3),
        Fld::U32(c1.4),
        Fld::U32(c2.0),
        Fld::U32(c2.1),
        Fld::U32(c2.2),
        Fld::U32(c2.3),
        Fld::U32(c2.4),
        Fld::U32(c3.0),
        Fld::U32(c3.1),
        Fld::U32(c3.2),
        Fld::U32(c3.3),
        Fld::U32(c3.4),
        Fld::U32(c4.0),
        Fld::U32(c4.1),
        Fld::U32(c4.2),
        Fld::U32(c4.3),
        Fld::U32(c4.4),
        Fld::U32(c5.0),
        Fld::U32(c5.1),
        Fld::U32(c5.2),
        Fld::U32(c5.3),
        Fld::U32(c5.4),
    ];
    proof {
        assert(fields_view(fs@) =~= color_fields(opt_seq(o)));
    }
    Ok(fs)
}

fn growth_slot_exec(g: &Vec<Range>, i: usize) -> (r: Range)
    ensures
        r == growth_slot(g@, i as int),
{
    if i < g.len() {
        g[i]
    } else {
        Range { min: 0, max: 0 }
    }
}

/// The growth factor fields of an event's growth factors.
fn growth_fields_exec(o: &Option<Vec<Range>>) -> (r: Result<Vec<Fld>, Error>)
    ensures
        fits_slots(opt_seq(o)) ==> (r matches Ok(fs) && fields_view(fs@) == growth_fields(
            opt_seq(o),
        )),
        !fits_slots(opt_seq(o)) ==> r == Err::<Vec<Fld>, Error>(Error::Invalid),
{
    let empty: Vec<Range> = Vec::new();
    let g = match o {
        Some(g) => g,
        None => &empty,
    };
    assert(g@ =~= item_list(opt_seq(o)));
    if g.len() > 6 {
        return Err(Error::Invalid);
    }
    let n = g.len() as u32;
    let g0 = growth_slot_exec(g, 0);
    let g1 = growth_slot_exec(g, 1);
    let g2 = growth_slot_exec(g, 2);
    let g3 = growth_slot_exec(g, 3);
    let g4 = growth_slot_exec(g, 4);
    let g5 = growth_slot_exec(g, 5);
    let fs = vec![
        Fld::U32(n),
        Fld::U32(g0.min),
        Fld::U32(g0.max),
        Fld::U32(g1.min),
        Fld::U32(g1.max),
        Fld::U32(g2.min),
        Fld::U32(g2.max),
        Fld::U32(g3.min),
        Fld::U32(g3.max),
        Fld::U32(g4.min),
        Fld::U32(g4.max),
        Fld::U32(g5.min),
        Fld::U32(g5.max),
    ];
    proof {
        assert(fields_view(fs@) =~= growth_fields(opt_seq(o)));
    }
    Ok(fs)
}

/// Writes a `PUFFER_STATE` record.
pub fn write(v: &PufferState, ad: &AnimDef, out: &mut Vec<u8>) -> (r: Result<(), Error>)
    ensures
        match serialize(ad@, v.deep_view()) {
            Some(b) => r is Ok && final(out)@ == old(out)@ + b,
            None => r == Err::<(), Error>(Error::Invalid) && final(out)@ == old(out)@,
        },
{
    let cf = common_fields_exec(v, ad)?;
    let tf = texture_fields_exec(&v.textures)?;
    let kf = color_fields_exec(&v.colors)?;
    let gf = growth_fields_exec(&v.growth_factors)?;
    let ghost o = out@;
    encode_record(&cf, out);
    encode_record(&tf, out);
    encode_record(&kf, out);
    encode_record(&gf, out);
    proof {
        assert(out@ =~= o + (encode(fields_view(cf@)) + encode(fields_view(tf@)) + encode(
            fields_view(kf@),
        ) + encode(fields_view(gf@))));
    }
    Ok(())
}

/// The fields of texture slot `i` have their kinds.
pub open spec fn texture_slot_fields(f: Seq<FieldV>, i: int) -> bool {
    &&& f[1 + 2 * i] is U32
    &&& f[2 + 2 * i] is Bytes
    &&& wbytes(f, 2 + 2 * i).len() == 32
}

/// Texture fields of their layout have their kinds slot by slot.
pub proof fn lemma_texture_kinds(f: Seq<FieldV>)
    requires
        conforms_all(f, textures_layout()),
    ensures
        f[0] is U32,
        forall|i: int| 0 <= i < 6 ==> #[trigger] texture_slot_fields(f, i),
{
    assert(conforms(f[0], textures_layout()[0]));
    assert forall|i: int| 0 <= i < 6 implies #[trigger] texture_slot_fields(f, i) by {
        assert(conforms(f[1 + 2 * i], textures_layout()[1 + 2 * i]));
        assert(conforms(f[2 + 2 * i], textures_layout()[2 + 2 * i]));
        if i == 0 {
        } else if i == 1 {
        } else if i == 2 {
        } else if i == 3 {
        } else if i == 4 {
        } else {
        }
    }
}

/// The name field of a texture slot that can be written has 32 bytes.
pub proof fn lemma_slot_name_len(s: Seq<PufferStateTexture<Seq<u8>>>, i: int)
    requires
        textures_writable(Some(s)),
    ensures
        slot_name_of(s, i).len() == 32,
{
    if 0 <= i < s.len() {
        assert(pad(s[i].name, 32) is Some);
    }
}

/// The slots of the texture fields.
pub proof fn lemma_texture_fields_slots(t: Option<Seq<PufferStateTexture<Seq<u8>>>>)
    requires
        textures_writable(t),
    ensures
        conforms_all(texture_fields(t), textures_layout()),
        w32(texture_fields(t), 0) == (if has_run_times(texture_list(t)) { 1u32 } else { 0u32 }),
        forall|i: int|
            0 <= i < 6 ==> #[trigger] slot_rt(texture_fields(t), i) == slot_rt_of(texture_list(t), i)
                && slot_name(texture_fields(t), i) == slot_name_of(texture_list(t), i),
{
    let s = texture_list(t);
    let g = texture_fields(t);
    assert(textures_writable(Some(s)));
    lemma_slot_name_len(s, 0);
    lemma_slot_name_len(s, 1);
    lemma_slot_name_len(s, 2);
    lemma_slot_name_len(s, 3);
    lemma_slot_name_len(s, 4);
    lemma_slot_name_len(s, 5);
    assert forall|k: int| 0 <= k < g.len() implies #[trigger] conforms(g[k], textures_layout()[k]) by {
    }
    assert forall|i: int| 0 <= i < 6 implies #[trigger] slot_rt(g, i) == slot_rt_of(s, i) && slot_name(
        g,
        i,
    ) == slot_name_of(s, i) by {
        if i == 0 {
        } else if i == 1 {
        } else if i == 2 {
        } else if i == 3 {
        } else if i == 4 {
        } else {
        }
    }
}

/// There are at most `k` named slots among the first `k`.
pub proof fn lemma_named_slots_bound(f: Seq<FieldV>, k: nat)
    ensures
        named_slots(f, k) <= k,
    decreases k,
{
    if k > 0 {
        lemma_named_slots_bound(f, (k - 1) as nat);
    }
}

/// Two texture fields with the same slot names have the same number of
/// named slots.
pub proof fn lemma_named_slots_same(f: Seq<FieldV>, g: Seq<FieldV>, k: nat)
    requires
        forall|i: int| 0 <= i < k ==> #[trigger] slot_name(f, i) == slot_name(g, i),
    ensures
        named_slots(f, k) == named_slots(g, k),
    decreases k,
{
    if k > 0 {
        assert(slot_name(f, k - 1) == slot_name(g, k - 1));
        lemma_named_slots_same(f, g, (k - 1) as nat);
    }
}

/// Textures that were read, written and read again, are the same.
pub proof fn lemma_textures_reread(fl: u32, f: Seq<FieldV>, fl2: u32)
    requires
        conforms_all(f, textures_layout()),
        textures_part(fl, f) is Some,
        bit(fl2, TEXTURES) == bit(fl, TEXTURES),
    ensures
        textures_writable(textures_part(fl, f).unwrap()),
        conforms_all(texture_fields(textures_part(fl, f).unwrap()), textures_layout()),
        textures_part(fl2, texture_fields(textures_part(fl, f).unwrap())) == textures_part(fl, f),
{
    let t = textures_part(fl, f).unwrap();
    let s = texture_list(t);
    let g = texture_fields(t);
    lemma_texture_kinds(f);
    let has_rt = bool_of(w32(f, 0) as int).unwrap();
    let n = named_slots(f, 6);
    lemma_named_slots_bound(f, 6);
    if bit(fl, TEXTURES) {
        assert(s == Seq::new(n, |i: int| texture_of(f, i, has_rt).unwrap()));
        assert forall|i: int| 0 <= i < s.len() implies #[trigger] pad(s[i].name, 32) == Some(
            slot_name(f, i),
        ) by {
            assert(texture_of(f, i, has_rt) is Some);
            assert(texture_slot_fields(f, i));
            lemma_pad_unpad(slot_name(f, i));
        }
        assert(textures_writable(t));
        lemma_texture_fields_slots(t);
        assert forall|i: int| 0 <= i < 6 implies #[trigger] slot_name(f, i) == slot_name(g, i) by {
            assert(texture_slot_fields(f, i));
            assert(slot_rt(g, i) == slot_rt_of(s, i));
            if i < n {
                assert(pad(s[i].name, 32) == Some(slot_name(f, i)));
            } else {
                assert(slot_is_zero(f, i));
                assert(slot_name(f, i) =~= zeros(32));
            }
        }
        lemma_named_slots_same(f, g, 6);
        if has_rt {
            assert(texture_of(f, 0, has_rt) is Some);
            assert(s[0].run_time is Some);
        } else {
            assert forall|i: int| 0 <= i < s.len() implies (#[trigger] s[i]).run_time is None by {
                assert(texture_of(f, i, has_rt) is Some);
            }
        }
        assert forall|i: int| 0 <= i < n implies #[trigger] texture_of(g, i, has_rt) == texture_of(
            f,
            i,
            has_rt,
        ) by {
            assert(texture_of(f, i, has_rt) is Some);
            assert(slot_rt(g, i) == slot_rt_of(s, i));
            assert(slot_name(f, i) == slot_name(g, i));
        }
        assert forall|i: int| n <= i < 6 implies #[trigger] slot_is_zero(g, i) by {
            assert(slot_rt(g, i) == slot_rt_of(s, i));
            assert(slot_name(f, i) == slot_name(g, i));
            assert(slot_is_zero(f, i));
        }
        assert(Seq::new(n, |i: int| texture_of(g, i, has_rt).unwrap()) =~= s);
    } else {
        assert(textures_writable(t));
        lemma_texture_fields_slots(t);
        assert forall|i: int| 0 <= i < 6 implies #[trigger] slot_is_zero(g, i) by {
            assert(slot_rt(g, i) == slot_rt_of(s, i));
            assert(slot_name_of(s, i) =~= zeros(32));
        }
    }
}

/// The slots of the colour fields.
pub proof fn lemma_color_fields_slots(o: Option<Seq<PufferStateColor>>)
    requires
        fits_slots(o),
    ensures
        conforms_all(color_fields(o), colors_layout()),
        w32(color_fields(o), 0) == item_list(o).len(),
        forall|i: int|
            0 <= i < 6 ==> #[trigger] color_at(color_fields(o), i) == color_slot(item_list(o), i),
{
    let g = color_fields(o);
    let c = item_list(o);
    assert forall|k: int| 0 <= k < g.len() implies #[trigger] conforms(g[k], colors_layout()[k]) by {
    }
    assert forall|i: int| 0 <= i < 6 implies #[trigger] color_at(g, i) == color_slot(c, i) by {
        if i == 0 {
        } else if i == 1 {
        } else if i == 2 {
        } else if i == 3 {
        } else if i == 4 {
        } else {
        }
    }
}

/// Colours that were read, written and read again, are the same.
pub proof fn lemma_colors_reread(fl: u32, f: Seq<FieldV>, fl2: u32)
    requires
        conforms_all(f, colors_layout()),
        colors_part(fl, f) is Some,
        bit(fl2, COLORS) == bit(fl, COLORS),
    ensures
        fits_slots(colors_part(fl, f).unwrap()),
        conforms_all(color_fields(colors_part(fl, f).unwrap()), colors_layout()),
        colors_part(fl2, color_fields(colors_part(fl, f).unwrap())) == colors_part(fl, f),
{
    let o = colors_part(fl, f).unwrap();
    let c = item_list(o);
    let g = color_fields(o);
    lemma_color_fields_slots(o);
    let n = c.len() as int;
    assert forall|i: int| 0 <= i < 6 implies #[trigger] color_at(g, i) == (if i < n {
        color_at(f, i)
    } else {
        PufferStateColor(0, 0, 0, 0, 0)
    }) by {
        assert(color_at(g, i) == color_slot(c, i));
    }
    if bit(fl, COLORS) {
        assert forall|i: int| 0 <= i < n implies !color_is_zero(#[trigger] color_at(g, i)) by {
            assert(color_at(g, i) == color_at(f, i));
        }
        assert forall|i: int| n <= i < 6 implies color_is_zero(#[trigger] color_at(g, i)) by {
            assert(color_at(g, i) == PufferStateColor(0, 0, 0, 0, 0));
        }
        assert(Seq::new(n as nat, |i: int| color_at(g, i)) =~= c);
    } else {
        assert forall|i: int| 0 <= i < 6 implies color_is_zero(#[trigger] color_at(g, i)) by {
            assert(color_at(g, i) == PufferStateColor(0, 0, 0, 0, 0));
        }
    }
}

/// The slots of the growth factor fields.
pub proof fn lemma_growth_fields_slots(o: Option<Seq<Range>>)
    requires
        fits_slots(o),
    ensures
        conforms_all(growth_fields(o), growths_layout()),
        w32(growth_fields(o), 0) == item_list(o).len(),
        forall|i: int|
            0 <= i < 6 ==> #[trigger] growth_at(growth_fields(o), i) == growth_slot(item_list(o), i),
{
    let g = growth_fields(o);
    let c = item_list(o);
    assert forall|k: int| 0 <= k < g.len() implies #[trigger] conforms(g[k], growths_layout()[k]) by {
    }
    assert forall|i: int| 0 <= i < 6 implies #[trigger] growth_at(g, i) == growth_slot(c, i) by {
        if i == 0 {
        } else if i == 1 {
        } else if i == 2 {
        } else if i == 3 {
        } else if i == 4 {
        } else {
        }
    }
}

/// Growth factors that were read, written and read again, are the same.
pub proof fn lemma_growths_reread(fl: u32, f: Seq<FieldV>, fl2: u32)
    requires
        conforms_all(f, growths_layout()),
        growths_part(fl, f) is Some,
        bit(fl2, GROWTH_FACTORS) == bit(fl, GROWTH_FACTORS),
    ensures
        fits_slots(growths_part(fl, f).unwrap()),
        conforms_all(growth_fields(growths_part(fl, f).unwrap()), growths_layout()),
        growths_part(fl2, growth_fields(growths_part(fl, f).unwrap())) == growths_part(fl, f),
{
    let o = growths_part(fl, f).unwrap();
    let c = item_list(o);
    let g = growth_fields(o);
    lemma_growth_fields_slots(o);
    let n = c.len() as int;
    assert forall|i: int| 0 <= i < 6 implies #[trigger] growth_at(g, i) == (if i < n {
        growth_at(f, i)
    } else {
        Range { min: 0, max: 0 }
    }) by {
        assert(growth_at(g, i) == growth_slot(c, i));
    }
    if bit(fl, GROWTH_FACTORS) {
        assert forall|i: int| 0 <= i < n implies !range_is_zero(#[trigger] growth_at(g, i)) by {
            assert(growth_at(g, i) == growth_at(f, i));
        }
        assert forall|i: int| n <= i < 6 implies range_is_zero(#[trigger] growth_at(g, i)) by {
            assert(growth_at(g, i) == Range { min: 0, max: 0 });
        }
        assert(Seq::new(n as nat, |i: int| growth_at(g, i)) =~= c);
    } else {
        assert forall|i: int| 0 <= i < 6 implies range_is_zero(#[trigger] growth_at(g, i)) by {
            assert(growth_at(g, i) == Range { min: 0, max: 0 });
        }
    }
}

/// Which vectors are present follows their flags.
pub proof fn lemma_vecs_bits(fl: u32, f: Seq<FieldV>)
    requires
        vecs_part(fl, f) is Some,
    ensures
        ({
            let v = vecs_part(fl, f).unwrap();
            &&& (v.0 is Some) == bit(fl, TRANSLATE_ABS)
            &&& (v.1 is Some) == bit(fl, LOCAL_VELOCITY)
            &&& (v.2 is Some) == bit(fl, WORLD_VELOCITY)
            &&& (v.3 is Some) == bit(fl, MIN_RANDOM_VELOCITY)
            &&& (v.4 is Some) == bit(fl, MAX_RANDOM_VELOCITY)
            &&& (v.5 is Some) == bit(fl, WORLD_ACCELERATION)
        }),
{
}

/// Which ranges and values are present follows their flags.
pub proof fn lemma_scalars_bits(fl: u32, f: Seq<FieldV>)
    requires
        scalars_part(fl, f) is Some,
    ensures
        ({
            let x = scalars_part(fl, f).unwrap();
            &&& (x.0 is Some) == bit(fl, SIZE_RANGE)
            &&& (x.1 is Some) == bit(fl, LIFETIME_RANGE)
            &&& (x.2 is Some) == bit(fl, START_AGE_RANGE)
            &&& (x.3 is Some) == bit(fl, UNKNOWN_RANGE)
            &&& (x.4 is Some) == bit(fl, FADE_RANGE)
            &&& (x.5 is Some) == bit(fl, DEVIATION_DISTANCE)
            &&& (x.6 is Some) == bit(fl, FRICTION)
            &&& (x.7 is Some) == bit(fl, WIND_FACTOR)
            &&& (x.8 is Some) == bit(fl, PRIORITY)
        }),
{
}

/// The interval flags of an interval that was read are those of the flag
/// word.
pub proof fn lemma_interval_bits(fl: u32, t: bool, value: u32)
    requires
        interval_of(fl, t, value) is Some,
    ensures
        ({
            let iv = interval_of(fl, t, value).unwrap();
            &&& interval_bits(iv.0, iv.1) == (bit(fl, INTERVAL_TYPE), bit(fl, INTERVAL_VALUE))
            &&& (iv.0 is Some || iv.1 is Some)
        }),
{
}

/// The flags of common values that were read are the ones that their
/// values set.
pub proof fn lemma_common_bits(ad: AnimDefV, f: Seq<FieldV>)
    requires
        common_part(ad, f) is Some,
    ensures
        ({
            let c = common_part(ad, f).unwrap();
            let fl = w32(f, 2);
            &&& flags_ok(fl)
            &&& (c.translate is Some) == bit(fl, TRANSLATE_ABS)
            &&& (c.at_node is Some) == bit(fl, AT_NODE)
            &&& (c.active_state is Some) == bit(fl, ACTIVE_STATE)
            &&& (c.local_velocity is Some) == bit(fl, LOCAL_VELOCITY)
            &&& (c.world_velocity is Some) == bit(fl, WORLD_VELOCITY)
            &&& (c.min_random_velocity is Some) == bit(fl, MIN_RANDOM_VELOCITY)
            &&& (c.max_random_velocity is Some) == bit(fl, MAX_RANDOM_VELOCITY)
            &&& (interval_bits(c.interval, c.interval_garbage).0) == bit(fl, INTERVAL_TYPE)
            &&& (interval_bits(c.interval, c.interval_garbage).1) == bit(fl, INTERVAL_VALUE)
            &&& (c.size_range is Some) == bit(fl, SIZE_RANGE)
            &&& (c.lifetime_range is Some) == bit(fl, LIFETIME_RANGE)
            &&& (c.deviation_distance is Some) == bit(fl, DEVIATION_DISTANCE)
            &&& (c.fade_range is Some) == bit(fl, FADE_RANGE)
            &&& (c.start_age_range is Some) == bit(fl, START_AGE_RANGE)
            &&& (c.world_acceleration is Some) == bit(fl, WORLD_ACCELERATION)
            &&& (c.friction is Some) == bit(fl, FRICTION)
            &&& (c.unk_range is Some) == bit(fl, UNKNOWN_RANGE)
            &&& (c.wind_factor is Some) == bit(fl, WIND_FACTOR)
            &&& (c.priority is Some) == bit(fl, PRIORITY)
        }),
{
    let fl = w32(f, 2);
    lemma_vecs_bits(fl, f);
    lemma_scalars_bits(fl, f);
    lemma_interval_bits(fl, bool_of(w32(f, 23) as int).unwrap(), w32(f, 24));
}

/// The flags written for common values whose presence follows the flag
/// word `fl` have the bits of `fl`, but for the number, whose bit is set
/// where a number is written (and then was set in `fl` too).
pub proof fn lemma_flags_of(
    c: PufferCommon<Seq<u8>>,
    fl: u32,
    tex: bool,
    col: bool,
    gro: bool,
    num: bool,
)
    requires
        flags_ok(fl),
        num ==> bit(fl, NUMBER),
        bit(fl, TEXTURES) == tex,
        bit(fl, COLORS) == col,
        bit(fl, GROWTH_FACTORS) == gro,
        (c.translate is Some) == bit(fl, TRANSLATE_ABS),
        (c.at_node is Some) == bit(fl, AT_NODE),
        (c.active_state is Some) == bit(fl, ACTIVE_STATE),
        (c.local_velocity is Some) == bit(fl, LOCAL_VELOCITY),
        (c.world_velocity is Some) == bit(fl, WORLD_VELOCITY),
        (c.min_random_velocity is Some) == bit(fl, MIN_RANDOM_VELOCITY),
        (c.max_random_velocity is Some) == bit(fl, MAX_RANDOM_VELOCITY),
        (interval_bits(c.interval, c.interval_garbage).0) == bit(fl, INTERVAL_TYPE),
        (interval_bits(c.interval, c.interval_garbage).1) == bit(fl, INTERVAL_VALUE),
        (c.size_range is Some) == bit(fl, SIZE_RANGE),
        (c.lifetime_range is Some) == bit(fl, LIFETIME_RANGE),
        (c.deviation_distance is Some) == bit(fl, DEVIATION_DISTANCE),
        (c.fade_range is Some) == bit(fl, FADE_RANGE),
        (c.start_age_range is Some) == bit(fl, START_AGE_RANGE),
        (c.world_acceleration is Some) == bit(fl, WORLD_ACCELERATION),
        (c.friction is Some) == bit(fl, FRICTION),
        (c.unk_range is Some) == bit(fl, UNKNOWN_RANGE),
        (c.wind_factor is Some) == bit(fl, WIND_FACTOR),
        (c.priority is Some) == bit(fl, PRIORITY),
    ensures
        ({
            let fl2 = flags_of(c, tex, col, gro, num);
            &&& flags_ok(fl2)
            &&& bit(fl2, NUMBER) == num
            &&& bit(fl2, TRANSLATE_ABS) == bit(fl, TRANSLATE_ABS)
            &&& bit(fl2, AT_NODE) == bit(fl, AT_NODE)
            &&& bit(fl2, ACTIVE_STATE) == bit(fl, ACTIVE_STATE)
            &&& bit(fl2, LOCAL_VELOCITY) == bit(fl, LOCAL_VELOCITY)
            &&& bit(fl2, WORLD_VELOCITY) == bit(fl, WORLD_VELOCITY)
            &&& bit(fl2, MIN_RANDOM_VELOCITY) == bit(fl, MIN_RANDOM_VELOCITY)
            &&& bit(fl2, MAX_RANDOM_VELOCITY) == bit(fl, MAX_RANDOM_VELOCITY)
            &&& bit(fl2, INTERVAL_TYPE) == bit(fl, INTERVAL_TYPE)
            &&& bit(fl2, INTERVAL_VALUE) == bit(fl, INTERVAL_VALUE)
            &&& bit(fl2, SIZE_RANGE) == bit(fl, SIZE_RANGE)
            &&& bit(fl2, LIFETIME_RANGE) == bit(fl, LIFETIME_RANGE)
            &&& bit(fl2, DEVIATION_DISTANCE) == bit(fl, DEVIATION_DISTANCE)
            &&& bit(fl2, FADE_RANGE) == bit(fl, FADE_RANGE)
            &&& bit(fl2, GROWTH_FACTORS) == bit(fl, GROWTH_FACTORS)
            &&& bit(fl2, TEXTURES) == bit(fl, TEXTURES)
            &&& bit(fl2, START_AGE_RANGE) == bit(fl, START_AGE_RANGE)
            &&& bit(fl2, WORLD_ACCELERATION) == bit(fl, WORLD_ACCELERATION)
            &&& bit(fl2, FRICTION) == bit(fl, FRICTION)
            &&& bit(fl2, COLORS) == bit(fl, COLORS)
            &&& bit(fl2, UNKNOWN_RANGE) == bit(fl, UNKNOWN_RANGE)
            &&& bit(fl2, WIND_FACTOR) == bit(fl, WIND_FACTOR)
            &&& bit(fl2, PRIORITY) == bit(fl, PRIORITY)
        }),
{
    broadcast use crate::flags::lemma_bit_zero;

    lemma_flags_of_bits(c, tex, col, gro, num);
    if !bit(fl, ACTIVE_STATE) {
        assert(fl == 0);
        assert(!bit(0, TRANSLATE_ABS));
        assert(!bit(0, AT_NODE));
        assert(!bit(0, ACTIVE_STATE));
        assert(!bit(0, LOCAL_VELOCITY));
        assert(!bit(0, WORLD_VELOCITY));
        assert(!bit(0, MIN_RANDOM_VELOCITY));
        assert(!bit(0, MAX_RANDOM_VELOCITY));
        assert(!bit(0, INTERVAL_TYPE));
        assert(!bit(0, INTERVAL_VALUE));
        assert(!bit(0, SIZE_RANGE));
        assert(!bit(0, LIFETIME_RANGE));
        assert(!bit(0, DEVIATION_DISTANCE));
        assert(!bit(0, FADE_RANGE));
        assert(!bit(0, GROWTH_FACTORS));
        assert(!bit(0, TEXTURES));
        assert(!bit(0, START_AGE_RANGE));
        assert(!bit(0, WORLD_ACCELERATION));
        assert(!bit(0, FRICTION));
        assert(!bit(0, COLORS));
        assert(!bit(0, UNKNOWN_RANGE));
        assert(!bit(0, WIND_FACTOR));
        assert(!bit(0, NUMBER));
        assert(!bit(0, PRIORITY));
    }
}

/// The common fields hold the values that they were written from.
#[verifier::rlimit(40)]
pub proof fn lemma_common_fields_shape(
    ad: AnimDefV,
    c: PufferCommon<Seq<u8>>,
    tex: bool,
    col: bool,
    gro: bool,
    number: bool,
)
    requires
        common_fields(ad, c, tex, col, gro, number) is Some,
    ensures
        ({
            let g = common_fields(ad, c, tex, col, gro, number).unwrap();
            &&& conforms_all(g, common_layout())
            &&& wbytes(g, 0) == pad(c.name, 32).unwrap()
            &&& w32(g, 1) == index_of(ad.puffers, c.name).unwrap() as u32
            &&& w32(g, 2) == flags_of(c, tex, col, gro, number)
            &&& w32(g, 3) == match c.at_node {
                Some(n) => index_of(ad.nodes, n).unwrap() as u32,
                None => NO_NODE,
            }
            &&& w32(g, 4) == value_or_zero(c.active_state)
            &&& w32(g, 23) == interval_values(c.interval, c.interval_garbage).0
            &&& w32(g, 24) == interval_values(c.interval, c.interval_garbage).1
            &&& vec_at(g, 5) == vec_or_zero(c.translate)
            &&& vec_at(g, 8) == vec_or_zero(c.local_velocity)
            &&& vec_at(g, 11) == vec_or_zero(c.world_velocity)
            &&& vec_at(g, 14) == vec_or_zero(c.min_random_velocity)
            &&& vec_at(g, 17) == vec_or_zero(c.max_random_velocity)
            &&& vec_at(g, 20) == vec_or_zero(c.world_acceleration)
            &&& range_at(g, 25) == range_or_zero(c.size_range)
            &&& range_at(g, 27) == range_or_zero(c.lifetime_range)
            &&& range_at(g, 29) == range_or_zero(c.start_age_range)
            &&& range_at(g, 32) == range_or_zero(c.unk_range)
            &&& range_at(g, 34) == range_or_zero(c.fade_range)
            &&& w32(g, 31) == value_or_zero(c.deviation_distance)
            &&& w32(g, 36) == value_or_zero(c.friction)
            &&& w32(g, 37) == value_or_zero(c.wind_factor)
            &&& w32(g, 38) == value_or_zero(c.priority)
        }),
{
    let g = common_fields(ad, c, tex, col, gro, number).unwrap();
    assert(pad(c.name, 32).unwrap().len() == 32);
    assert(g.len() == 39);
    assert forall|k: int| 0 <= k < g.len() implies #[trigger] conforms(g[k], common_layout()[k]) by {
    }
}

/// Vectors read, written and read again with the same flags are the same.
pub proof fn lemma_vecs_reread(fl: u32, f: Seq<FieldV>, fl2: u32, g: Seq<FieldV>)
    requires
        vecs_part(fl, f) is Some,
        bit(fl2, TRANSLATE_ABS) == bit(fl, TRANSLATE_ABS),
        bit(fl2, LOCAL_VELOCITY) == bit(fl, LOCAL_VELOCITY),
        bit(fl2, WORLD_VELOCITY) == bit(fl, WORLD_VELOCITY),
        bit(fl2, MIN_RANDOM_VELOCITY) == bit(fl, MIN_RANDOM_VELOCITY),
        bit(fl2, MAX_RANDOM_VELOCITY) == bit(fl, MAX_RANDOM_VELOCITY),
        bit(fl2, WORLD_ACCELERATION) == bit(fl, WORLD_ACCELERATION),
        vec_at(g, 5) == vec_or_zero(vecs_part(fl, f).unwrap().0),
        vec_at(g, 8) == vec_or_zero(vecs_part(fl, f).unwrap().1),
        vec_at(g, 11) == vec_or_zero(vecs_part(fl, f).unwrap().2),
        vec_at(g, 14) == vec_or_zero(vecs_part(fl, f).unwrap().3),
        vec_at(g, 17) == vec_or_zero(vecs_part(fl, f).unwrap().4),
        vec_at(g, 20) == vec_or_zero(vecs_part(fl, f).unwrap().5),
    ensures
        vecs_part(fl2, g) == vecs_part(fl, f),
{
}

/// Ranges and values read, written and read again with the same flags are
/// the same.
pub proof fn lemma_scalars_reread(fl: u32, f: Seq<FieldV>, fl2: u32, g: Seq<FieldV>)
    requires
        scalars_part(fl, f) is Some,
        bit(fl2, SIZE_RANGE) == bit(fl, SIZE_RANGE),
        bit(fl2, LIFETIME_RANGE) == bit(fl, LIFETIME_RANGE),
        bit(fl2, START_AGE_RANGE) == bit(fl, START_AGE_RANGE),
        bit(fl2, UNKNOWN_RANGE) == bit(fl, UNKNOWN_RANGE),
        bit(fl2, FADE_RANGE) == bit(fl, FADE_RANGE),
        bit(fl2, DEVIATION_DISTANCE) == bit(fl, DEVIATION_DISTANCE),
        bit(fl2, FRICTION) == bit(fl, FRICTION),
        bit(fl2, WIND_FACTOR) == bit(fl, WIND_FACTOR),
        bit(fl2, PRIORITY) == bit(fl, PRIORITY),
        range_at(g, 25) == range_or_zero(scalars_part(fl, f).unwrap().0),
        range_at(g, 27) == range_or_zero(scalars_part(fl, f).unwrap().1),
        range_at(g, 29) == range_or_zero(scalars_part(fl, f).unwrap().2),
        range_at(g, 32) == range_or_zero(scalars_part(fl, f).unwrap().3),
        range_at(g, 34) == range_or_zero(scalars_part(fl, f).unwrap().4),
        w32(g, 31) == value_or_zero(scalars_part(fl, f).unwrap().5),
        w32(g, 36) == value_or_zero(scalars_part(fl, f).unwrap().6),
        w32(g, 37) == value_or_zero(scalars_part(fl, f).unwrap().7),
        w32(g, 38) == value_or_zero(scalars_part(fl, f).unwrap().8),
    ensures
        scalars_part(fl2, g) == scalars_part(fl, f),
{
}

/// Common values that were read, written and read again, are the same;
/// the written flags keep the bits of the textures, colours and growth
/// factors, and set the number's bit where a number is written.
pub proof fn lemma_common_reread(
    ad: AnimDefV,
    f: Seq<FieldV>,
    tex: bool,
    col: bool,
    gro: bool,
    num: bool,
)
    requires
        conforms_all(f, common_layout()),
        num ==> bit(w32(f, 2), NUMBER),
        common_part(ad, f) is Some,
        bit(w32(f, 2), TEXTURES) == tex,
        bit(w32(f, 2), COLORS) == col,
        bit(w32(f, 2), GROWTH_FACTORS) == gro,
    ensures
        common_fields(ad, common_part(ad, f).unwrap(), tex, col, gro, num) matches Some(g)
            && conforms_all(g, common_layout()) && common_part(ad, g) == common_part(ad, f)
            && bit(w32(g, 2), NUMBER) == num
            && bit(w32(g, 2), TEXTURES) == tex && bit(w32(g, 2), COLORS) == col && bit(
            w32(g, 2),
            GROWTH_FACTORS,
        ) == gro,
{
    let c = common_part(ad, f).unwrap();
    let fl = w32(f, 2);
    assert(conforms(f[0], common_layout()[0]));
    assert(wbytes(f, 0).len() == 32);
    lemma_pad_unpad(wbytes(f, 0));
    lemma_name_reread(ad.puffers, w32(f, 1) as int);
    if bit(fl, AT_NODE) {
        lemma_name_reread(ad.nodes, w32(f, 3) as int);
    }
    lemma_unpad_pad(c.name, 32);
    lemma_common_bits(ad, f);
    lemma_flags_of(c, fl, tex, col, gro, num);
    assert(common_fields(ad, c, tex, col, gro, num) is Some);
    lemma_common_fields_shape(ad, c, tex, col, gro, num);
    let g = common_fields(ad, c, tex, col, gro, num).unwrap();
    let fl2 = w32(g, 2);
    lemma_vecs_reread(fl, f, fl2, g);
    lemma_scalars_reread(fl, f, fl2, g);
    assert(name_part(ad, g) == Some(c.name));
    assert(interval_part(fl2, g) == interval_part(fl, f));
    assert(active_of(bit(fl2, ACTIVE_STATE), w32(g, 4)) == Some(c.active_state));
    assert(at_node_of(ad, bit(fl2, AT_NODE), w32(g, 3)) == Some(c.at_node));
}

/// Writing an event that was read, then reading it again, gives the same
/// event.
#[verifier::rlimit(80)]
pub proof fn lemma_reread(ad: AnimDefV, s: Seq<u8>)
    requires
        parse(ad, s) is Some,
    ensures
        serialize(ad, parse(ad, s).unwrap()) matches Some(b) && parse(ad, b) == parse(ad, s),
{
    lemma_layout_sizes();
    let v = parse(ad, s).unwrap();
    let s0 = s.subrange(0, 184);
    let s1 = s.subrange(184, 404);
    let s2 = s.subrange(404, 528);
    let s3 = s.subrange(528, 580);
    let fc = decode(common_layout(), s0);
    let ft = decode(textures_layout(), s1);
    let fk = decode(colors_layout(), s2);
    let fg = decode(growths_layout(), s3);
    lemma_decode_conforms(common_layout(), s0);
    lemma_decode_conforms(textures_layout(), s1);
    lemma_decode_conforms(colors_layout(), s2);
    lemma_decode_conforms(growths_layout(), s3);
    let fl = w32(fc, 2);
    lemma_common_reread(
        ad,
        fc,
        v.textures is Some,
        v.colors is Some,
        v.growth_factors is Some,
        false,
    );
    let gc = common_fields(
        ad,
        v.common,
        v.textures is Some,
        v.colors is Some,
        v.growth_factors is Some,
        false,
    ).unwrap();
    let fl2 = w32(gc, 2);
    lemma_textures_reread(fl, ft, fl2);
    lemma_colors_reread(fl, fk, fl2);
    lemma_growths_reread(fl, fg, fl2);
    let gt = texture_fields(v.textures);
    let gk = color_fields(v.colors);
    let gg = growth_fields(v.growth_factors);
    lemma_decode_encode(gc, common_layout());
    lemma_decode_encode(gt, textures_layout());
    lemma_decode_encode(gk, colors_layout());
    lemma_decode_encode(gg, growths_layout());
    lemma_encode_size(gc, common_layout());
    lemma_encode_size(gt, textures_layout());
    lemma_encode_size(gk, colors_layout());
    lemma_encode_size(gg, growths_layout());
    let b = encode(gc) + encode(gt) + encode(gk) + encode(gg);
    assert(b.subrange(0, 184) =~= encode(gc));
    assert(b.subrange(184, 404) =~= encode(gt));
    assert(b.subrange(404, 528) =~= encode(gk));
    assert(b.subrange(528, 580) =~= encode(gg));
    assert(serialize(ad, v) == Some(b));
}

/// Size of the record of Pirate's Moon, which holds a number after the
/// common part.
pub const PM_SIZE: u32 = 584;

/// Fields of the number.
pub open spec fn number_layout() -> Seq<Kind> {
    seq![Kind::U32]
}

/// The number: positive where its flag is set, zero otherwise.
pub open spec fn number_part(set: bool, x: u32) -> Option<Option<u32>> {
    if set {
        if x > 0 {
            Some(Some(x))
        } else {
            None
        }
    } else if x == 0 {
        Some(None)
    } else {
        None
    }
}

/// The event that a record of Pirate's Moon holds, if it holds one: the
/// common part, the number, and the three lists, read against the flags of
/// the common part.
pub open spec fn parse_pm(ad: AnimDefV, s: Seq<u8>) -> Option<PufferStateV> {
    if s.len() == PM_SIZE {
        let fc = decode(common_layout(), s.subrange(0, 184));
        let fl = w32(fc, 2);
        match (
            common_part(ad, fc),
            number_part(bit(fl, NUMBER), w32(decode(number_layout(), s.subrange(184, 188)), 0)),
            textures_part(fl, decode(textures_layout(), s.subrange(188, 408))),
            colors_part(fl, decode(colors_layout(), s.subrange(408, 532))),
            growths_part(fl, decode(growths_layout(), s.subrange(532, 584))),
        ) {
            (
                Some(common),
                Some(number),
                Some(textures),
                Some(colors),
                Some(growth_factors),
            ) => Some(PufferStateV { common, number, textures, colors, growth_factors }),
            _ => None,
        }
    } else {
        None
    }
}

/// The record of Pirate's Moon of an event, if it can be written.
pub open spec fn serialize_pm(ad: AnimDefV, v: PufferStateV) -> Option<Seq<u8>> {
    match common_fields(
        ad,
        v.common,
        v.textures is Some,
        v.colors is Some,
        v.growth_factors is Some,
        v.number is Some,
    ) {
        Some(cf) => if textures_writable(v.textures) && fits_slots(v.colors) && fits_slots(
            v.growth_factors,
        ) {
            Some(
                encode(cf) + encode(seq![FieldV::U32(value_or_zero(v.number))]) + encode(
                    texture_fields(v.textures),
                ) + encode(color_fields(v.colors)) + encode(growth_fields(v.growth_factors)),
            )
        } else {
            None
        },
        None => None,
    }
}

/// Reads a `PUFFER_STATE` record of Pirate's Moon.
pub fn read_pm(data: &[u8], ad: &AnimDef) -> (r: Result<PufferState, Error>)
    ensures
        match parse_pm(ad@, data@) {
            Some(v) => r matches Ok(x) && x.deep_view() == v,
            None => r == Err::<PufferState, Error>(Error::Invalid),
        },
{
    if data.len() != 584 {
        return Err(Error::Invalid);
    }
    proof {
        lemma_layout_sizes();
        reveal_with_fuel(size, 2);
    }
    let d0 = slice_subrange(data, 0, 184);
    let dn = slice_subrange(data, 184, 188);
    let d1 = slice_subrange(data, 188, 408);
    let d2 = slice_subrange(data, 408, 532);
    let d3 = slice_subrange(data, 532, 584);
    let l0 = common_layout_exec();
    let ln = vec![Kind::U32];
    let l1 = textures_layout_exec();
    let l2 = u32_layout(31);
    let l3 = u32_layout(13);
    proof {
        assert(ln@ =~= number_layout());
    }
    let f0 = decode_record(d0, l0.as_slice());
    let fnum = decode_record(dn, ln.as_slice());
    let f1 = decode_record(d1, l1.as_slice());
    let f2 = decode_record(d2, l2.as_slice());
    let f3 = decode_record(d3, l3.as_slice());
    assert(fields_view(f0@)[2] is U32) by {
        assert(conforms(fields_view(f0@)[2], common_layout()[2]));
    }
    assert(fields_view(fnum@)[0] is U32) by {
        assert(conforms(fields_view(fnum@)[0], number_layout()[0]));
    }
    let fl = get_u32(&f0, 2);
    let common = read_common(&f0, ad)?;
    let x = get_u32(&fnum, 0);
    let number = if bit_exec(fl, NUMBER) {
        if x > 0 {
            Some(x)
        } else {
            return Err(Error::Invalid);
        }
    } else if x == 0 {
        None
    } else {
        return Err(Error::Invalid);
    };
    let textures = read_textures(fl, &f1)?;
    let colors = read_colors(fl, &f2)?;
    let growth_factors = read_growths(fl, &f3)?;
    Ok(PufferState { common, number, textures, colors, growth_factors })
}

/// Writes a `PUFFER_STATE` record of Pirate's Moon.
pub fn write_pm(v: &PufferState, ad: &AnimDef, out: &mut Vec<u8>) -> (r: Result<(), Error>)
    ensures
        match serialize_pm(ad@, v.deep_view()) {
            Some(b) => r is Ok && final(out)@ == old(out)@ + b,
            None => r == Err::<(), Error>(Error::Invalid) && final(out)@ == old(out)@,
        },
{
    let cf = common_fields_exec(v, ad)?;
    let tf = texture_fields_exec(&v.textures)?;
    let kf = color_fields_exec(&v.colors)?;
    let gf = growth_fields_exec(&v.growth_factors)?;
    let nf = vec![Fld::U32(value_or_zero_exec(v.number))];
    let ghost o = out@;
    encode_record(&cf, out);
    encode_record(&nf, out);
    encode_record(&tf, out);
    encode_record(&kf, out);
    encode_record(&gf, out);
    proof {
        assert(fields_view(nf@) =~= seq![FieldV::U32(value_or_zero(v.number))]);
        assert(out@ =~= o + (encode(fields_view(cf@)) + encode(fields_view(nf@)) + encode(
            fields_view(tf@),
        ) + encode(fields_view(kf@)) + encode(fields_view(gf@))));
    }
    Ok(())
}

/// Writing an event that was read from a record of Pirate's Moon, then
/// reading it again, gives the same event.
#[verifier::rlimit(80)]
pub proof fn lemma_reread_pm(ad: AnimDefV, s: Seq<u8>)
    requires
        parse_pm(ad, s) is Some,
    ensures
        serialize_pm(ad, parse_pm(ad, s).unwrap()) matches Some(b) && parse_pm(ad, b) == parse_pm(
            ad,
            s,
        ),
{
    lemma_layout_sizes();
    let v = parse_pm(ad, s).unwrap();
    let s0 = s.subrange(0, 184);
    let sn = s.subrange(184, 188);
    let s1 = s.subrange(188, 408);
    let s2 = s.subrange(408, 532);
    let s3 = s.subrange(532, 584);
    let fc = decode(common_layout(), s0);
    let ft = decode(textures_layout(), s1);
    let fk = decode(colors_layout(), s2);
    let fg = decode(growths_layout(), s3);
    lemma_decode_conforms(common_layout(), s0);
    lemma_decode_conforms(textures_layout(), s1);
    lemma_decode_conforms(colors_layout(), s2);
    lemma_decode_conforms(growths_layout(), s3);
    let fl = w32(fc, 2);
    lemma_common_reread(
        ad,
        fc,
        v.textures is Some,
        v.colors is Some,
        v.growth_factors is Some,
        v.number is Some,
    );
    let gc = common_fields(
        ad,
        v.common,
        v.textures is Some,
        v.colors is Some,
        v.growth_factors is Some,
        v.number is Some,
    ).unwrap();
    let fl2 = w32(gc, 2);
    lemma_textures_reread(fl, ft, fl2);
    lemma_colors_reread(fl, fk, fl2);
    lemma_growths_reread(fl, fg, fl2);
    let gn = seq![FieldV::U32(value_or_zero(v.number))];
    let gt = texture_fields(v.textures);
    let gk = color_fields(v.colors);
    let gg = growth_fields(v.growth_factors);
    assert(conforms_all(gn, number_layout()));
    assert(size(number_layout()) == 4) by {
        reveal_with_fuel(size, 2);
    }
    lemma_decode_encode(gc, common_layout());
    lemma_decode_encode(gn, number_layout());
    lemma_decode_encode(gt, textures_layout());
    lemma_decode_encode(gk, colors_layout());
    lemma_decode_encode(gg, growths_layout());
    lemma_encode_size(gc, common_layout());
    lemma_encode_size(gn, number_layout());
    lemma_encode_size(gt, textures_layout());
    lemma_encode_size(gk, colors_layout());
    lemma_encode_size(gg, growths_layout());
    let b = encode(gc) + encode(gn) + encode(gt) + encode(gk) + encode(gg);
    assert(b.subrange(0, 184) =~= encode(gc));
    assert(b.subrange(184, 188) =~= encode(gn));
    assert(b.subrange(188, 408) =~= encode(gt));
    assert(b.subrange(408, 532) =~= encode(gk));
    assert(b.subrange(532, 584) =~= encode(gg));
    assert(serialize_pm(ad, v) == Some(b));
}

/// A record that is written has the record's size.
pub proof fn lemma_written_size(ad: AnimDefV, v: PufferStateV)
    requires
        serialize(ad, v) is Some,
    ensures
        serialize(ad, v).unwrap().len() == SIZE,
{
    lemma_layout_sizes();
    lemma_common_fields_shape(
        ad,
        v.common,
        v.textures is Some,
        v.colors is Some,
        v.growth_factors is Some,
        v.number is Some,
    );
    lemma_texture_fields_slots(v.textures);
    lemma_color_fields_slots(v.colors);
    lemma_growth_fields_slots(v.growth_factors);
    let gc = common_fields(
        ad,
        v.common,
        v.textures is Some,
        v.colors is Some,
        v.growth_factors is Some,
        v.number is Some,
    ).unwrap();
    lemma_encode_size(gc, common_layout());
    lemma_encode_size(texture_fields(v.textures), textures_layout());
    lemma_encode_size(color_fields(v.colors), colors_layout());
    lemma_encode_size(growth_fields(v.growth_factors), growths_layout());
}

/// Two flag words of the 23 known bits with the same bits are the same.
proof fn lemma_same_bits(x: u32, y: u32)
    by (bit_vector)
    requires
        x < 0x80_0000,
        y < 0x80_0000,
        bit(x, 0) == bit(y, 0),
        bit(x, 1) == bit(y, 1),
        bit(x, 2) == bit(y, 2),
        bit(x, 3) == bit(y, 3),
        bit(x, 4) == bit(y, 4),
        bit(x, 5) == bit(y, 5),
        bit(x, 6) == bit(y, 6),
        bit(x, 7) == bit(y, 7),
        bit(x, 8) == bit(y, 8),
        bit(x, 9) == bit(y, 9),
        bit(x, 10) == bit(y, 10),
        bit(x, 11) == bit(y, 11),
        bit(x, 12) == bit(y, 12),
        bit(x, 13) == bit(y, 13),
        bit(x, 14) == bit(y, 14),
        bit(x, 15) == bit(y, 15),
        bit(x, 16) == bit(y, 16),
        bit(x, 17) == bit(y, 17),
        bit(x, 18) == bit(y, 18),
        bit(x, 19) == bit(y, 19),
        bit(x, 20) == bit(y, 20),
        bit(x, 21) == bit(y, 21),
        bit(x, 22) == bit(y, 22),
    ensures
        x == y,
{
}

/// The common fields of a record of MechWarrior 3 are written back as
/// read: the number's flag is unset, and the parts are (`common_parts_exact`).
pub open spec fn common_exact(f: Seq<FieldV>) -> bool {
    &&& !bit(w32(f, 2), NUMBER)
    &&& common_parts_exact(f)
}

/// No vector, range or value of the common fields whose flag is unset holds
/// `-0.0`.
pub open spec fn common_parts_exact(f: Seq<FieldV>) -> bool {
    let fl = w32(f, 2);
    &&& (!bit(fl, TRANSLATE_ABS) ==> vec3_no_neg_zero(vec_at(f, 5)))
    &&& (!bit(fl, LOCAL_VELOCITY) ==> vec3_no_neg_zero(vec_at(f, 8)))
    &&& (!bit(fl, WORLD_VELOCITY) ==> vec3_no_neg_zero(vec_at(f, 11)))
    &&& (!bit(fl, MIN_RANDOM_VELOCITY) ==> vec3_no_neg_zero(vec_at(f, 14)))
    &&& (!bit(fl, MAX_RANDOM_VELOCITY) ==> vec3_no_neg_zero(vec_at(f, 17)))
    &&& (!bit(fl, WORLD_ACCELERATION) ==> vec3_no_neg_zero(vec_at(f, 20)))
    &&& (!bit(fl, SIZE_RANGE) ==> range_no_neg_zero(range_at(f, 25)))
    &&& (!bit(fl, LIFETIME_RANGE) ==> range_no_neg_zero(range_at(f, 27)))
    &&& (!bit(fl, START_AGE_RANGE) ==> range_no_neg_zero(range_at(f, 29)))
    &&& (!bit(fl, UNKNOWN_RANGE) ==> range_no_neg_zero(range_at(f, 32)))
    &&& (!bit(fl, FADE_RANGE) ==> range_no_neg_zero(range_at(f, 34)))
    &&& (!bit(fl, DEVIATION_DISTANCE) ==> w32(f, 31) != float::NEG_ZERO)
    &&& (!bit(fl, FRICTION) ==> w32(f, 36) != float::NEG_ZERO)
    &&& (!bit(fl, WIND_FACTOR) ==> w32(f, 37) != float::NEG_ZERO)
    &&& (!bit(fl, PRIORITY) ==> w32(f, 38) != float::NEG_ZERO)
}

/// The texture fields are written back as read: without the textures'
/// flag, a stored `false` for the run times; and a run time of `-0.0` only
/// in a texture of textures that have run times.
pub open spec fn textures_exact(fl: u32, f: Seq<FieldV>) -> bool {
    &&& (!bit(fl, TEXTURES) ==> w32(f, 0) == 0)
    &&& forall|i: int|
        0 <= i < 6 && #[trigger] slot_rt(f, i) == float::NEG_ZERO ==> bit(fl, TEXTURES) && w32(
            f,
            0,
        ) == 1 && i < named_slots(f, 6)
}

/// The colour fields are written back as read: no unused slot holds
/// `-0.0`.
pub open spec fn colors_exact(f: Seq<FieldV>) -> bool {
    forall|i: int|
        w32(f, 0) <= i < 6 ==> {
            let c = #[trigger] color_at(f, i);
            &&& c.0 != float::NEG_ZERO
            &&& c.1 != float::NEG_ZERO
            &&& c.2 != float::NEG_ZERO
            &&& c.3 != float::NEG_ZERO
            &&& c.4 != float::NEG_ZERO
        }
}

/// The growth factor fields are written back as read: no unused slot holds
/// `-0.0`.
pub open spec fn growths_exact(f: Seq<FieldV>) -> bool {
    forall|i: int| w32(f, 0) <= i < 6 ==> range_no_neg_zero(#[trigger] growth_at(f, i))
}

/// The record is written back exactly as read: each of its four parts is.
pub open spec fn exact_record(ad: AnimDefV, s: Seq<u8>) -> bool {
    let fc = decode(common_layout(), s.subrange(0, 184));
    &&& common_exact(fc)
    &&& textures_exact(w32(fc, 2), decode(textures_layout(), s.subrange(184, 404)))
    &&& colors_exact(decode(colors_layout(), s.subrange(404, 528)))
    &&& growths_exact(decode(growths_layout(), s.subrange(528, 580)))
}

/// Common fields that are written back as read give their own fields.
#[verifier::rlimit(60)]
proof fn lemma_common_exact(
    ad: AnimDefV,
    f: Seq<FieldV>,
    tex: bool,
    col: bool,
    gro: bool,
    num: bool,
)
    requires
        conforms_all(f, common_layout()),
        common_part(ad, f) is Some,
        crate::anim_def::unique_names(ad.puffers),
        crate::anim_def::unique_names(ad.nodes),
        common_parts_exact(f),
        bit(w32(f, 2), NUMBER) == num,
        bit(w32(f, 2), TEXTURES) == tex,
        bit(w32(f, 2), COLORS) == col,
        bit(w32(f, 2), GROWTH_FACTORS) == gro,
    ensures
        common_fields(ad, common_part(ad, f).unwrap(), tex, col, gro, num) == Some(f),
{
    let c = common_part(ad, f).unwrap();
    let fl = w32(f, 2);
    assert(conforms(f[0], common_layout()[0]));
    assert(wbytes(f, 0).len() == 32);
    lemma_pad_unpad(wbytes(f, 0));
    lemma_index_of_name_at(ad.puffers, w32(f, 1) as int);
    if bit(fl, AT_NODE) {
        lemma_index_of_name_at(ad.nodes, w32(f, 3) as int);
    }
    lemma_common_bits(ad, f);
    lemma_flags_of(c, fl, tex, col, gro, num);
    lemma_common_fields_shape(ad, c, tex, col, gro, num);
    let g = common_fields(ad, c, tex, col, gro, num).unwrap();
    lemma_same_bits(w32(g, 2), fl);
    lemma_conforming_fields(f, common_layout());
    lemma_conforming_fields(g, common_layout());
    assert(vec_at(g, 5) == vec_at(f, 5));
    assert(vec_at(g, 8) == vec_at(f, 8));
    assert(vec_at(g, 11) == vec_at(f, 11));
    assert(vec_at(g, 14) == vec_at(f, 14));
    assert(vec_at(g, 17) == vec_at(f, 17));
    assert(vec_at(g, 20) == vec_at(f, 20));
    assert(range_at(g, 25) == range_at(f, 25));
    assert(range_at(g, 27) == range_at(f, 27));
    assert(range_at(g, 29) == range_at(f, 29));
    assert(range_at(g, 32) == range_at(f, 32));
    assert(range_at(g, 34) == range_at(f, 34));
    assert(w32(g, 31) == w32(f, 31));
    assert(w32(g, 36) == w32(f, 36));
    assert(w32(g, 37) == w32(f, 37));
    assert(w32(g, 38) == w32(f, 38));
    assert(w32(g, 23) == w32(f, 23));
    assert(w32(g, 24) == w32(f, 24));
    assert forall|k: int| 0 <= k < 39 implies #[trigger] g[k] == f[k] by {
        if k == 0 {
        } else {
            assert(common_layout()[k] == Kind::U32);
            assert(w32(g, k) == w32(f, k)) by {
                if 5 <= k < 23 {
                    if k < 8 {
                        assert(vec_at(g, 5) == vec_at(f, 5));
                    } else if k < 11 {
                        assert(vec_at(g, 8) == vec_at(f, 8));
                    } else if k < 14 {
                        assert(vec_at(g, 11) == vec_at(f, 11));
                    } else if k < 17 {
                        assert(vec_at(g, 14) == vec_at(f, 14));
                    } else if k < 20 {
                        assert(vec_at(g, 17) == vec_at(f, 17));
                    } else {
                        assert(vec_at(g, 20) == vec_at(f, 20));
                    }
                } else if 25 <= k < 31 {
                    assert(range_at(g, 25) == range_at(f, 25));
                    assert(range_at(g, 27) == range_at(f, 27));
                    assert(range_at(g, 29) == range_at(f, 29));
                } else if 32 <= k < 36 {
                    assert(range_at(g, 32) == range_at(f, 32));
                    assert(range_at(g, 34) == range_at(f, 34));
                }
            }
        }
    }
    assert(g =~= f);
}

/// A texture slot that is written back as read gives its own fields.
proof fn lemma_texture_slot_exact(fl: u32, f: Seq<FieldV>, i: int)
    requires
        conforms_all(f, textures_layout()),
        textures_part(fl, f) is Some,
        textures_exact(fl, f),
        0 <= i < 6,
    ensures
        slot_rt_of(texture_list(textures_part(fl, f).unwrap()), i) == slot_rt(f, i),
        slot_name_of(texture_list(textures_part(fl, f).unwrap()), i) == slot_name(f, i),
{
    let n = named_slots(f, 6);
    let has_rt = bool_of(w32(f, 0) as int).unwrap();
    let t = texture_list(textures_part(fl, f).unwrap());
    lemma_texture_kinds(f);
    assert(texture_slot_fields(f, i));
    lemma_named_slots_bound(f, 6);
    let rt = slot_rt(f, i);
    if bit(fl, TEXTURES) && i < n {
        assert(texture_of(f, i, has_rt) is Some);
        assert(t[i] == texture_of(f, i, has_rt).unwrap());
        lemma_pad_unpad(slot_name(f, i));
        if !has_rt {
            assert(rt != float::NEG_ZERO);
        }
    } else {
        assert(slot_is_zero(f, i));
        assert(rt != float::NEG_ZERO);
        assert(slot_name(f, i) =~= zeros(32));
    }
}

/// Texture fields that are written back as read give their own fields.
proof fn lemma_textures_exact(fl: u32, f: Seq<FieldV>)
    requires
        conforms_all(f, textures_layout()),
        textures_part(fl, f) is Some,
        textures_exact(fl, f),
    ensures
        textures_writable(textures_part(fl, f).unwrap()),
        texture_fields(textures_part(fl, f).unwrap()) == f,
{
    let tp = textures_part(fl, f).unwrap();
    let t = texture_list(tp);
    let n = named_slots(f, 6);
    let has_rt = bool_of(w32(f, 0) as int).unwrap();
    lemma_texture_kinds(f);
    lemma_named_slots_bound(f, 6);
    assert forall|i: int| 0 <= i < t.len() implies #[trigger] pad(t[i].name, 32) is Some by {
        assert(texture_of(f, i, has_rt) is Some);
        assert(texture_slot_fields(f, i));
        lemma_pad_unpad(slot_name(f, i));
    }
    if bit(fl, TEXTURES) {
        assert(texture_of(f, 0, has_rt) is Some);
        if has_rt {
            assert(t[0].run_time is Some);
        } else {
            assert(!has_run_times(t)) by {
                assert forall|i: int| 0 <= i < t.len() implies (#[trigger] t[i]).run_time is None by {
                    assert(texture_of(f, i, has_rt) is Some);
                }
            }
        }
    }
    lemma_texture_slot_exact(fl, f, 0);
    lemma_texture_slot_exact(fl, f, 1);
    lemma_texture_slot_exact(fl, f, 2);
    lemma_texture_slot_exact(fl, f, 3);
    lemma_texture_slot_exact(fl, f, 4);
    lemma_texture_slot_exact(fl, f, 5);
    lemma_conforming_fields(f, textures_layout());
    assert(texture_fields(tp) =~= f);
}

/// Colour fields that are written back as read give their own fields.
proof fn lemma_colors_exact(fl: u32, f: Seq<FieldV>)
    requires
        conforms_all(f, colors_layout()),
        colors_part(fl, f) is Some,
        colors_exact(f),
    ensures
        fits_slots(colors_part(fl, f).unwrap()),
        color_fields(colors_part(fl, f).unwrap()) == f,
{
    let c = item_list(colors_part(fl, f).unwrap());
    assert(c.len() == w32(f, 0));
    assert forall|i: int| 0 <= i < 6 implies #[trigger] color_slot(c, i) == color_at(f, i) by {
        if i >= c.len() {
            assert(color_is_zero(color_at(f, i)));
        }
    }
    assert(color_slot(c, 0) == color_at(f, 0));
    assert(color_slot(c, 1) == color_at(f, 1));
    assert(color_slot(c, 2) == color_at(f, 2));
    assert(color_slot(c, 3) == color_at(f, 3));
    assert(color_slot(c, 4) == color_at(f, 4));
    assert(color_slot(c, 5) == color_at(f, 5));
    lemma_conforming_fields(f, colors_layout());
    assert(color_fields(colors_part(fl, f).unwrap()) =~= f);
}

/// Growth factor fields that are written back as read give their own
/// fields.
proof fn lemma_growths_exact(fl: u32, f: Seq<FieldV>)
    requires
        conforms_all(f, growths_layout()),
        growths_part(fl, f) is Some,
        growths_exact(f),
    ensures
        fits_slots(growths_part(fl, f).unwrap()),
        growth_fields(growths_part(fl, f).unwrap()) == f,
{
    let g = item_list(growths_part(fl, f).unwrap());
    assert(g.len() == w32(f, 0));
    assert forall|i: int| 0 <= i < 6 implies #[trigger] growth_slot(g, i) == growth_at(f, i) by {
        if i >= g.len() {
            assert(range_is_zero(growth_at(f, i)));
        }
    }
    assert(growth_slot(g, 0) == growth_at(f, 0));
    assert(growth_slot(g, 1) == growth_at(f, 1));
    assert(growth_slot(g, 2) == growth_at(f, 2));
    assert(growth_slot(g, 3) == growth_at(f, 3));
    assert(growth_slot(g, 4) == growth_at(f, 4));
    assert(growth_slot(g, 5) == growth_at(f, 5));
    lemma_conforming_fields(f, growths_layout());
    assert(growth_fields(growths_part(fl, f).unwrap()) =~= f);
}

/// Writing the event of a record gives the record back, where the puffers and
/// the nodes of the definition are distinct and the record is written back
/// exactly.
pub proof fn lemma_exact(ad: AnimDefV, s: Seq<u8>)
    requires
        parse(ad, s) is Some,
        crate::anim_def::unique_names(ad.puffers),
        crate::anim_def::unique_names(ad.nodes),
        exact_record(ad, s),
    ensures
        serialize(ad, parse(ad, s).unwrap()) == Some(s),
{
    lemma_layout_sizes();
    let v = parse(ad, s).unwrap();
    let s0 = s.subrange(0, 184);
    let s1 = s.subrange(184, 404);
    let s2 = s.subrange(404, 528);
    let s3 = s.subrange(528, 580);
    let fc = decode(common_layout(), s0);
    let ft = decode(textures_layout(), s1);
    let fk = decode(colors_layout(), s2);
    let fg = decode(growths_layout(), s3);
    lemma_decode_conforms(common_layout(), s0);
    lemma_decode_conforms(textures_layout(), s1);
    lemma_decode_conforms(colors_layout(), s2);
    lemma_decode_conforms(growths_layout(), s3);
    let fl = w32(fc, 2);
    lemma_common_exact(
        ad,
        fc,
        v.textures is Some,
        v.colors is Some,
        v.growth_factors is Some,
        false,
    );
    lemma_textures_exact(fl, ft);
    lemma_colors_exact(fl, fk);
    lemma_growths_exact(fl, fg);
    lemma_encode_decode(common_layout(), s0);
    lemma_encode_decode(textures_layout(), s1);
    lemma_encode_decode(colors_layout(), s2);
    lemma_encode_decode(growths_layout(), s3);
    assert(s =~= s0 + s1 + s2 + s3);
}

/// A record of Pirate's Moon is written back exactly as read: each of its
/// parts but the number is (the number always is).
pub open spec fn exact_record_pm(ad: AnimDefV, s: Seq<u8>) -> bool {
    let fc = decode(common_layout(), s.subrange(0, 184));
    &&& common_parts_exact(fc)
    &&& textures_exact(w32(fc, 2), decode(textures_layout(), s.subrange(188, 408)))
    &&& colors_exact(decode(colors_layout(), s.subrange(408, 532)))
    &&& growths_exact(decode(growths_layout(), s.subrange(532, 584)))
}

/// Writing the event of a record of Pirate's Moon gives the record back,
/// where the puffers and the nodes of the definition are distinct and the record is written
/// back exactly.
pub proof fn lemma_exact_pm(ad: AnimDefV, s: Seq<u8>)
    requires
        parse_pm(ad, s) is Some,
        crate::anim_def::unique_names(ad.puffers),
        crate::anim_def::unique_names(ad.nodes),
        exact_record_pm(ad, s),
    ensures
        serialize_pm(ad, parse_pm(ad, s).unwrap()) == Some(s),
{
    lemma_layout_sizes();
    let v = parse_pm(ad, s).unwrap();
    let s0 = s.subrange(0, 184);
    let sn = s.subrange(184, 188);
    let s1 = s.subrange(188, 408);
    let s2 = s.subrange(408, 532);
    let s3 = s.subrange(532, 584);
    let fc = decode(common_layout(), s0);
    let fnum = decode(number_layout(), sn);
    let ft = decode(textures_layout(), s1);
    let fk = decode(colors_layout(), s2);
    let fg = decode(growths_layout(), s3);
    assert(size(number_layout()) == 4) by {
        reveal_with_fuel(size, 2);
    }
    lemma_decode_conforms(common_layout(), s0);
    lemma_decode_conforms(number_layout(), sn);
    lemma_decode_conforms(textures_layout(), s1);
    lemma_decode_conforms(colors_layout(), s2);
    lemma_decode_conforms(growths_layout(), s3);
    let fl = w32(fc, 2);
    lemma_common_exact(
        ad,
        fc,
        v.textures is Some,
        v.colors is Some,
        v.growth_factors is Some,
        v.number is Some,
    );
    lemma_textures_exact(fl, ft);
    lemma_colors_exact(fl, fk);
    lemma_growths_exact(fl, fg);
    lemma_conforming_fields(fnum, number_layout());
    assert(seq![FieldV::U32(value_or_zero(v.number))] =~= fnum);
    lemma_encode_decode(common_layout(), s0);
    lemma_encode_decode(number_layout(), sn);
    lemma_encode_decode(textures_layout(), s1);
    lemma_encode_decode(colors_layout(), s2);
    lemma_encode_decode(growths_layout(), s3);
    assert(s =~= s0 + sn + s1 + s2 + s3);
}

/// Common values that a record holds as they are: a name that fits its
/// field and names a puffer, a known node, an active state of at most 10
/// and, where there is none, no flag at all; exactly one of an interval
/// (with a value of at least zero) and stored interval values (without both
/// of their flags); and ranges and values that pass their checks.
pub open spec fn common_readable(
    ad: AnimDefV,
    c: PufferCommon<Seq<u8>>,
    tex: bool,
    col: bool,
    gro: bool,
) -> bool {
    &&& pad(c.name, 32) is Some
    &&& index_of(ad.puffers, c.name) is Some
    &&& c.at_node matches Some(n) ==> index_of(ad.nodes, n) is Some
    &&& c.active_state matches Some(x) ==> x <= 10
    &&& c.active_state is None ==> flags_of(c, tex, col, gro, false) == 0
    &&& (c.interval is Some) != (c.interval_garbage is Some)
    &&& c.interval matches Some(i) ==> float::le(float::ZERO, i.interval_value)
    &&& c.interval_garbage matches Some(g) ==> !(g.has_interval_type && g.has_interval_value)
    &&& c.size_range matches Some(r) ==> size_range_ok(r)
    &&& c.lifetime_range matches Some(r) ==> lifetime_range_ok(r)
    &&& c.start_age_range matches Some(r) ==> start_age_range_ok(r)
    &&& c.unk_range matches Some(r) ==> unk_range_ok(r)
    &&& c.fade_range matches Some(r) ==> fade_range_ok(r)
    &&& c.deviation_distance matches Some(x) ==> deviation_distance_ok(x)
    &&& c.friction matches Some(x) ==> friction_ok(x)
    &&& c.wind_factor matches Some(x) ==> wind_factor_ok(x)
    &&& c.priority matches Some(x) ==> priority_ok(x)
}

/// Textures that a record holds as they are: one to six, each with a name
/// that fits its field and is not empty, all with a run time or all
/// without.
pub open spec fn textures_readable(t: Option<Seq<PufferStateTexture<Seq<u8>>>>) -> bool {
    match t {
        None => true,
        Some(s) => {
            &&& 1 <= s.len() <= 6
            &&& forall|i: int|
                0 <= i < s.len() ==> #[trigger] pad(s[i].name, 32) is Some && s[i].name.len() > 0
            &&& (forall|i: int| 0 <= i < s.len() ==> (#[trigger] s[i]).run_time is Some) || (forall|
                i: int,
            |
                0 <= i < s.len() ==> (#[trigger] s[i]).run_time is None)
        },
    }
}

/// Colours that a record holds as they are: one to five, none of them zero.
pub open spec fn colors_readable(o: Option<Seq<PufferStateColor>>) -> bool {
    match o {
        None => true,
        Some(c) => 1 <= c.len() <= 5 && forall|i: int|
            0 <= i < c.len() ==> !color_is_zero(#[trigger] c[i]),
    }
}

/// Growth factors that a record holds as they are: one to five, none of
/// them zero.
pub open spec fn growths_readable(o: Option<Seq<Range>>) -> bool {
    match o {
        None => true,
        Some(g) => 1 <= g.len() <= 5 && forall|i: int|
            0 <= i < g.len() ==> !range_is_zero(#[trigger] g[i]),
    }
}

/// An event that a record of MechWarrior 3 holds as it is: no number, and
/// each part as above.
pub open spec fn readable(ad: AnimDefV, v: PufferStateV) -> bool {
    &&& v.number is None
    &&& common_readable(ad, v.common, v.textures is Some, v.colors is Some, v.growth_factors is Some)
    &&& textures_readable(v.textures)
    &&& colors_readable(v.colors)
    &&& growths_readable(v.growth_factors)
}

/// The stored interval type reads back as the type.
proof fn lemma_type_value(t: PufferIntervalType)
    ensures
        bool_of(type_value(t) as int) matches Some(b) && interval_type_of(b) == t,
{
}

/// Vectors stored under their own flags are read back.
proof fn lemma_vecs_read_back(c: PufferCommon<Seq<u8>>, fl: u32, g: Seq<FieldV>)
    requires
        bit(fl, TRANSLATE_ABS) == (c.translate is Some),
        bit(fl, LOCAL_VELOCITY) == (c.local_velocity is Some),
        bit(fl, WORLD_VELOCITY) == (c.world_velocity is Some),
        bit(fl, MIN_RANDOM_VELOCITY) == (c.min_random_velocity is Some),
        bit(fl, MAX_RANDOM_VELOCITY) == (c.max_random_velocity is Some),
        bit(fl, WORLD_ACCELERATION) == (c.world_acceleration is Some),
        vec_at(g, 5) == vec_or_zero(c.translate),
        vec_at(g, 8) == vec_or_zero(c.local_velocity),
        vec_at(g, 11) == vec_or_zero(c.world_velocity),
        vec_at(g, 14) == vec_or_zero(c.min_random_velocity),
        vec_at(g, 17) == vec_or_zero(c.max_random_velocity),
        vec_at(g, 20) == vec_or_zero(c.world_acceleration),
    ensures
        vecs_part(fl, g) == Some(
            (
                c.translate,
                c.local_velocity,
                c.world_velocity,
                c.min_random_velocity,
                c.max_random_velocity,
                c.world_acceleration,
            ),
        ),
{
}

/// Ranges and values stored under their own flags, and passing their
/// checks, are read back.
proof fn lemma_scalars_read_back(c: PufferCommon<Seq<u8>>, fl: u32, g: Seq<FieldV>)
    requires
        bit(fl, SIZE_RANGE) == (c.size_range is Some),
        bit(fl, LIFETIME_RANGE) == (c.lifetime_range is Some),
        bit(fl, START_AGE_RANGE) == (c.start_age_range is Some),
        bit(fl, UNKNOWN_RANGE) == (c.unk_range is Some),
        bit(fl, FADE_RANGE) == (c.fade_range is Some),
        bit(fl, DEVIATION_DISTANCE) == (c.deviation_distance is Some),
        bit(fl, FRICTION) == (c.friction is Some),
        bit(fl, WIND_FACTOR) == (c.wind_factor is Some),
        bit(fl, PRIORITY) == (c.priority is Some),
        range_at(g, 25) == range_or_zero(c.size_range),
        range_at(g, 27) == range_or_zero(c.lifetime_range),
        range_at(g, 29) == range_or_zero(c.start_age_range),
        range_at(g, 32) == range_or_zero(c.unk_range),
        range_at(g, 34) == range_or_zero(c.fade_range),
        w32(g, 31) == value_or_zero(c.deviation_distance),
        w32(g, 36) == value_or_zero(c.friction),
        w32(g, 37) == value_or_zero(c.wind_factor),
        w32(g, 38) == value_or_zero(c.priority),
        c.size_range matches Some(r) ==> size_range_ok(r),
        c.lifetime_range matches Some(r) ==> lifetime_range_ok(r),
        c.start_age_range matches Some(r) ==> start_age_range_ok(r),
        c.unk_range matches Some(r) ==> unk_range_ok(r),
        c.fade_range matches Some(r) ==> fade_range_ok(r),
        c.deviation_distance matches Some(x) ==> deviation_distance_ok(x),
        c.friction matches Some(x) ==> friction_ok(x),
        c.wind_factor matches Some(x) ==> wind_factor_ok(x),
        c.priority matches Some(x) ==> priority_ok(x),
    ensures
        scalars_part(fl, g) == Some(
            (
                c.size_range,
                c.lifetime_range,
                c.start_age_range,
                c.unk_range,
                c.fade_range,
                c.deviation_distance,
                c.friction,
                c.wind_factor,
                c.priority,
            ),
        ),
{
}

/// An interval, or stored interval values, stored under their own flags
/// are read back.
proof fn lemma_interval_read_back(c: PufferCommon<Seq<u8>>, fl: u32, g: Seq<FieldV>)
    requires
        (c.interval is Some) != (c.interval_garbage is Some),
        c.interval matches Some(i) ==> float::le(float::ZERO, i.interval_value),
        c.interval_garbage matches Some(gb) ==> !(gb.has_interval_type && gb.has_interval_value),
        bit(fl, INTERVAL_TYPE) == interval_bits(c.interval, c.interval_garbage).0,
        bit(fl, INTERVAL_VALUE) == interval_bits(c.interval, c.interval_garbage).1,
        w32(g, 23) == interval_values(c.interval, c.interval_garbage).0,
        w32(g, 24) == interval_values(c.interval, c.interval_garbage).1,
    ensures
        interval_part(fl, g) == Some((c.interval, c.interval_garbage)),
{
    match c.interval {
        Some(i) => lemma_type_value(i.interval_type),
        None => lemma_type_value(c.interval_garbage.unwrap().interval_type),
    }
}

/// Common values that a record holds as they are are read back from their
/// fields.
#[verifier::spinoff_prover]
#[verifier::rlimit(60)]
pub proof fn lemma_common_read_back(
    ad: AnimDefV,
    c: PufferCommon<Seq<u8>>,
    tex: bool,
    col: bool,
    gro: bool,
)
    requires
        common_readable(ad, c, tex, col, gro),
    ensures
        common_fields(ad, c, tex, col, gro, false) matches Some(g) && conforms_all(
            g,
            common_layout(),
        ) && common_part(ad, g) == Some(c) && bit(w32(g, 2), TEXTURES) == tex && bit(
            w32(g, 2),
            COLORS,
        ) == col && bit(w32(g, 2), GROWTH_FACTORS) == gro,
{
    crate::anim_def::lemma_name_at_index_of(ad.puffers, c.name);
    if let Some(n) = c.at_node {
        crate::anim_def::lemma_name_at_index_of(ad.nodes, n);
    }
    lemma_unpad_pad(c.name, 32);
    lemma_flags_of_bits(c, tex, col, gro, false);
    assert(common_fields(ad, c, tex, col, gro, false) is Some);
    lemma_common_fields_shape(ad, c, tex, col, gro, false);
    let g = common_fields(ad, c, tex, col, gro, false).unwrap();
    let fl = w32(g, 2);
    assert(flags_ok(fl));
    let name = name_part(ad, g);
    let active = active_of(bit(fl, ACTIVE_STATE), w32(g, 4));
    let node = at_node_of(ad, bit(fl, AT_NODE), w32(g, 3));
    assert(name == Some(c.name));
    assert(active == Some(c.active_state));
    assert(node == Some(c.at_node));
    lemma_interval_read_back(c, fl, g);
    lemma_vecs_read_back(c, fl, g);
    lemma_scalars_read_back(c, fl, g);
}

/// Textures that a record holds as they are are read back from their
/// fields.
proof fn lemma_textures_read_back(t: Option<Seq<PufferStateTexture<Seq<u8>>>>, fl: u32)
    requires
        textures_readable(t),
        bit(fl, TEXTURES) == (t is Some),
    ensures
        textures_writable(t),
        conforms_all(texture_fields(t), textures_layout()),
        textures_part(fl, texture_fields(t)) == Some(t),
{
    let s = texture_list(t);
    let g = texture_fields(t);
    assert(textures_writable(t));
    lemma_texture_fields_slots(t);
    let n = s.len();
    assert forall|i: int| n <= i < 6 implies #[trigger] slot_is_zero(g, i) by {
        assert(slot_rt(g, i) == slot_rt_of(s, i));
        assert(slot_name_of(s, i) =~= zeros(32));
    }
    if let Some(x) = t {
        let has_rt = x[0].run_time is Some;
        assert(has_run_times(s) == has_rt);
        assert(named_slots(g, 6) == n) by {
            assert forall|i: int| n <= i < 6 implies #[trigger] slot_name(g, i)[0] == 0 by {
                assert(slot_name(g, i) == slot_name_of(s, i));
                assert(slot_name_of(s, i) =~= zeros(32));
            }
            reveal_with_fuel(named_slots, 7);
            assert(slot_name(g, n - 1) == slot_name_of(s, n - 1));
            assert(pad(x[n - 1].name, 32) is Some);
            assert(crate::text::name_byte(x[n - 1].name[0]));
            assert(slot_name(g, n - 1)[0] == x[n - 1].name[0]);
            if n < 6 {
                assert(slot_name(g, 5)[0] == 0);
            }
            if n < 5 {
                assert(slot_name(g, 4)[0] == 0);
            }
            if n < 4 {
                assert(slot_name(g, 3)[0] == 0);
            }
            if n < 3 {
                assert(slot_name(g, 2)[0] == 0);
            }
            if n < 2 {
                assert(slot_name(g, 1)[0] == 0);
            }
        }
        assert forall|i: int| 0 <= i < n implies #[trigger] texture_of(g, i, has_rt) == Some(
            x[i],
        ) by {
            assert(slot_rt(g, i) == slot_rt_of(s, i));
            assert(slot_name(g, i) == slot_name_of(s, i));
            assert(pad(x[i].name, 32) is Some);
            lemma_unpad_pad(x[i].name, 32);
            assert(crate::text::name_byte(x[i].name[0]));
            assert(slot_name(g, i)[0] == x[i].name[0]);
            assert(slot_name(g, i)[0] != 0);
            assert(!all_zero(slot_name(g, i)));
        }
        assert(Seq::new(n, |i: int| texture_of(g, i, has_rt).unwrap()) =~= x);
    } else {
        assert(!has_run_times(s));
    }
}

/// Colours that a record holds as they are are read back from their fields.
proof fn lemma_colors_read_back(o: Option<Seq<PufferStateColor>>, fl: u32)
    requires
        colors_readable(o),
        bit(fl, COLORS) == (o is Some),
    ensures
        fits_slots(o),
        conforms_all(color_fields(o), colors_layout()),
        colors_part(fl, color_fields(o)) == Some(o),
{
    let c = item_list(o);
    let g = color_fields(o);
    lemma_color_fields_slots(o);
    assert forall|i: int| c.len() <= i < 6 implies color_is_zero(#[trigger] color_at(g, i)) by {
        assert(color_at(g, i) == color_slot(c, i));
    }
    if let Some(x) = o {
        assert forall|i: int| 0 <= i < c.len() implies !color_is_zero(#[trigger] color_at(g, i)) by {
            assert(color_at(g, i) == color_slot(c, i));
        }
        assert(Seq::new(c.len(), |i: int| color_at(g, i)) =~= x) by {
            assert forall|i: int| 0 <= i < c.len() implies #[trigger] color_at(g, i) == x[i] by {
                assert(color_at(g, i) == color_slot(c, i));
            }
        }
    }
}

/// Growth factors that a record holds as they are are read back from their
/// fields.
proof fn lemma_growths_read_back(o: Option<Seq<Range>>, fl: u32)
    requires
        growths_readable(o),
        bit(fl, GROWTH_FACTORS) == (o is Some),
    ensures
        fits_slots(o),
        conforms_all(growth_fields(o), growths_layout()),
        growths_part(fl, growth_fields(o)) == Some(o),
{
    let c = item_list(o);
    let g = growth_fields(o);
    lemma_growth_fields_slots(o);
    assert forall|i: int| c.len() <= i < 6 implies range_is_zero(#[trigger] growth_at(g, i)) by {
        assert(growth_at(g, i) == growth_slot(c, i));
    }
    if let Some(x) = o {
        assert forall|i: int| 0 <= i < c.len() implies !range_is_zero(#[trigger] growth_at(g, i)) by {
            assert(growth_at(g, i) == growth_slot(c, i));
        }
        assert(Seq::new(c.len(), |i: int| growth_at(g, i)) =~= x) by {
            assert forall|i: int| 0 <= i < c.len() implies #[trigger] growth_at(g, i) == x[i] by {
                assert(growth_at(g, i) == growth_slot(c, i));
            }
        }
    }
}

/// An event that a record holds as it is is written, and the record it is
/// written to reads back as the event.
#[verifier::spinoff_prover]
#[verifier::rlimit(40)]
pub proof fn lemma_written_reads_back(ad: AnimDefV, v: PufferStateV)
    requires
        readable(ad, v),
    ensures
        serialize(ad, v) matches Some(b) && parse(ad, b) == Some(v),
{
    lemma_layout_sizes();
    let tex = v.textures is Some;
    let col = v.colors is Some;
    let gro = v.growth_factors is Some;
    lemma_common_read_back(ad, v.common, tex, col, gro);
    let gc = common_fields(ad, v.common, tex, col, gro, false).unwrap();
    let fl = w32(gc, 2);
    lemma_textures_read_back(v.textures, fl);
    lemma_colors_read_back(v.colors, fl);
    lemma_growths_read_back(v.growth_factors, fl);
    let gt = texture_fields(v.textures);
    let gk = color_fields(v.colors);
    let gg = growth_fields(v.growth_factors);
    lemma_decode_encode(gc, common_layout());
    lemma_decode_encode(gt, textures_layout());
    lemma_decode_encode(gk, colors_layout());
    lemma_decode_encode(gg, growths_layout());
    lemma_encode_size(gc, common_layout());
    lemma_encode_size(gt, textures_layout());
    lemma_encode_size(gk, colors_layout());
    lemma_encode_size(gg, growths_layout());
    let b = encode(gc) + encode(gt) + encode(gk) + encode(gg);
    assert(b.subrange(0, 184) =~= encode(gc));
    assert(b.subrange(184, 404) =~= encode(gt));
    assert(b.subrange(404, 528) =~= encode(gk));
    assert(b.subrange(528, 580) =~= encode(gg));
    assert(serialize(ad, v) == Some(b));
}


/// The interval of common values is a distance: the type of its interval,
/// or of its stored interval values where it has no interval (a time where
/// it has neither).
pub open spec fn distance_interval(c: PufferCommon<Seq<u8>>) -> bool {
    match (c.interval, c.interval_garbage) {
        (Some(i), _) => i.interval_type is Distance,
        (None, Some(g)) => g.interval_type is Distance,
        (None, None) => false,
    }
}

/// The interval type of an event read from a record is given by the four
/// bytes at offset 120, little-endian: a distance where they hold `1`, a
/// time where they hold `0` (a record holding any other number there is not
/// read).
pub proof fn lemma_interval_type_read(ad: AnimDefV, s: Seq<u8>)
    requires
        parse(ad, s) is Some,
    ensures
        crate::record::le32_at(s, 120) == (if distance_interval(parse(ad, s).unwrap().common) {
            1u32
        } else {
            0u32
        }),
{
    let h = s.subrange(0, 184);
    lemma_layout_sizes();
    crate::record::lemma_named_u32_offset(32, 38, 23);
    crate::record::lemma_numbers_at(common_layout(), h, 23);
    assert(h.subrange(120, 124) =~= s.subrange(120, 124));
}

/// The record written for an event holds its interval type in the four
/// bytes at offset 120, little-endian: `1` for a distance, `0` for a time.
pub proof fn lemma_interval_type_written(ad: AnimDefV, v: PufferStateV)
    requires
        serialize(ad, v) is Some,
    ensures
        serialize(ad, v).unwrap().subrange(120, 124) == vstd::bytes::spec_u32_to_le_bytes(
            if distance_interval(v.common) {
                1u32
            } else {
                0u32
            },
        ),
{
    let tex = v.textures is Some;
    let col = v.colors is Some;
    let gro = v.growth_factors is Some;
    let num = v.number is Some;
    lemma_common_fields_shape(ad, v.common, tex, col, gro, num);
    let g = common_fields(ad, v.common, tex, col, gro, num).unwrap();
    lemma_layout_sizes();
    lemma_encode_size(g, common_layout());
    crate::record::lemma_named_u32_offset(32, 38, 23);
    crate::record::lemma_encode_u32(g, common_layout(), 23);
    let b = serialize(ad, v).unwrap();
    assert(b.subrange(120, 124) =~= encode(g).subrange(120, 124));
}

/// The textures of an event read from a record have run times exactly
/// where the four bytes at offset 184 hold `1`, little-endian; they hold
/// `0` or `1`.
pub proof fn lemma_run_times_read(ad: AnimDefV, s: Seq<u8>)
    requires
        parse(ad, s) is Some,
    ensures
        crate::record::le32_at(s, 184) == 0 || crate::record::le32_at(s, 184) == 1,
        parse(ad, s).unwrap().textures matches Some(x) ==> forall|i: int|
            0 <= i < x.len() ==> ((#[trigger] x[i]).run_time is Some) == (crate::record::le32_at(
                s,
                184,
            ) == 1),
{
    let t = s.subrange(184, 404);
    let f = decode(textures_layout(), t);
    lemma_layout_sizes();
    assert(textures_layout().take(0) =~= Seq::<Kind>::empty());
    crate::record::lemma_numbers_at(textures_layout(), t, 0);
    assert(t.subrange(0, 4) =~= s.subrange(184, 188));
    let fl = w32(decode(common_layout(), s.subrange(0, 184)), 2);
    let has_rt = bool_of(w32(f, 0) as int).unwrap();
    if let Some(x) = parse(ad, s).unwrap().textures {
        let n = named_slots(f, 6);
        assert(x == Seq::new(n, |i: int| texture_of(f, i, has_rt).unwrap()));
        assert forall|i: int| 0 <= i < x.len() implies ((#[trigger] x[i]).run_time is Some) == (
        crate::record::le32_at(s, 184) == 1) by {
            assert(texture_of(f, i, has_rt) is Some);
        }
    }
}

/// The record written for an event holds in the four bytes at offset 184,
/// little-endian, `1` where some texture has a run time and `0` otherwise.
pub proof fn lemma_run_times_written(ad: AnimDefV, v: PufferStateV)
    requires
        serialize(ad, v) is Some,
    ensures
        serialize(ad, v).unwrap().subrange(184, 188) == vstd::bytes::spec_u32_to_le_bytes(
            if has_run_times(texture_list(v.textures)) {
                1u32
            } else {
                0u32
            },
        ),
{
    let tex = v.textures is Some;
    let col = v.colors is Some;
    let gro = v.growth_factors is Some;
    let num = v.number is Some;
    lemma_common_fields_shape(ad, v.common, tex, col, gro, num);
    let g = common_fields(ad, v.common, tex, col, gro, num).unwrap();
    let gt = texture_fields(v.textures);
    lemma_layout_sizes();
    lemma_encode_size(g, common_layout());
    lemma_texture_fields_slots(v.textures);
    lemma_encode_size(gt, textures_layout());
    assert(textures_layout().take(0) =~= Seq::<Kind>::empty());
    crate::record::lemma_encode_u32(gt, textures_layout(), 0);
    let b = serialize(ad, v).unwrap();
    assert(b.subrange(184, 188) =~= encode(gt).subrange(0, 4));
}


/// The interval of an event read from a record follows the record's flag
/// word, the four bytes at offset 36, little-endian: there is an interval
/// exactly where both bits `INTERVAL_TYPE` and `INTERVAL_VALUE` are set,
/// and otherwise stored interval values that say which of the two bits is
/// set; either way the value is the number at offset 124.
pub proof fn lemma_interval_flags_read(ad: AnimDefV, s: Seq<u8>)
    requires
        parse(ad, s) is Some,
    ensures
        ({
            let c = parse(ad, s).unwrap().common;
            let fl = crate::record::le32_at(s, 36);
            let value = crate::record::le32_at(s, 124);
            &&& (c.interval is Some) == (bit(fl, INTERVAL_TYPE) && bit(fl, INTERVAL_VALUE))
            &&& (c.interval_garbage is Some) == !(bit(fl, INTERVAL_TYPE) && bit(fl, INTERVAL_VALUE))
            &&& c.interval matches Some(i) ==> i.interval_value == value
            &&& c.interval_garbage matches Some(g) ==> g.has_interval_type == bit(fl, INTERVAL_TYPE)
                && g.has_interval_value == bit(fl, INTERVAL_VALUE) && g.interval_value == value
        }),
{
    let h = s.subrange(0, 184);
    lemma_layout_sizes();
    crate::record::lemma_named_u32_offset(32, 38, 2);
    crate::record::lemma_named_u32_offset(32, 38, 24);
    crate::record::lemma_numbers_at(common_layout(), h, 2);
    crate::record::lemma_numbers_at(common_layout(), h, 24);
    assert(h.subrange(36, 40) =~= s.subrange(36, 40));
    assert(h.subrange(124, 128) =~= s.subrange(124, 128));
}

} // verus!
