//! The frames of a script that moves a node: each frame a 12-byte header
//! (which parts it has, start and end time) followed by a 76-byte block for
//! each of its translation, rotation and scale.
use vstd::prelude::*;
use crate::error::Error;
use crate::flags::{bit, bit_exec};
use crate::model::{Quaternion, Vec3};
use crate::record::{
    append_bytes, conforms, conforms_all, decode, decode_record, encode, encode_record,
    fields_view, get_bytes, get_u32, lemma_decode_conforms, lemma_decode_encode,
    lemma_encode_decode, lemma_encode_size, size, w32, wbytes, FieldV, Fld, Kind,
};
use crate::text::copy_bytes;
use vstd::slice::slice_subrange;

verus! {

broadcast use vstd::seq_lib::group_seq_properties;

/// A translation of a frame; `garbage` is an `f32` the game leaves unused.
#[derive(Debug)]
pub struct TranslateData<N> {
    pub base: Vec3,
    pub delta: Vec3,
    pub garbage: u32,
    pub spline_x: N,
    pub spline_y: N,
    pub spline_z: N,
}

/// A rotation of a frame.
#[derive(Debug)]
pub struct RotateData<N> {
    pub base: Quaternion,
    pub delta: Vec3,
    pub spline_x: N,
    pub spline_y: N,
    pub spline_z: N,
}

/// A scale of a frame; `garbage` is an `f32` the game leaves unused.
#[derive(Debug)]
pub struct ScaleData<N> {
    pub base: Vec3,
    pub delta: Vec3,
    pub garbage: u32,
    pub spline_x: N,
    pub spline_y: N,
    pub spline_z: N,
}

/// A frame of a script.
#[derive(Debug)]
pub struct ObjectMotionSiFrame<N> {
    pub start_time: u32,
    pub end_time: u32,
    pub translate: Option<TranslateData<N>>,
    pub rotate: Option<RotateData<N>>,
    pub scale: Option<ScaleData<N>>,
}

impl DeepView for ObjectMotionSiFrame<Vec<u8>> {
    type V = ObjectMotionSiFrame<Seq<u8>>;

    open spec fn deep_view(&self) -> ObjectMotionSiFrame<Seq<u8>> {
        ObjectMotionSiFrame {
            start_time: self.start_time,
            end_time: self.end_time,
            translate: match &self.translate {
                Some(t) => Some(
                    TranslateData {
                        base: t.base,
                        delta: t.delta,
                        garbage: t.garbage,
                        spline_x: t.spline_x@,
                        spline_y: t.spline_y@,
                        spline_z: t.spline_z@,
                    },
                ),
                None => None,
            },
            rotate: match &self.rotate {
                Some(t) => Some(
                    RotateData {
                        base: t.base,
                        delta: t.delta,
                        spline_x: t.spline_x@,
                        spline_y: t.spline_y@,
                        spline_z: t.spline_z@,
                    },
                ),
                None => None,
            },
            scale: match &self.scale {
                Some(t) => Some(
                    ScaleData {
                        base: t.base,
                        delta: t.delta,
                        garbage: t.garbage,
                        spline_x: t.spline_x@,
                        spline_y: t.spline_y@,
                        spline_z: t.spline_z@,
                    },
                ),
                None => None,
            },
        }
    }
}

/// Size of a frame header.
pub const FRAME_SIZE: u32 = 12;

/// Size of a translation, rotation or scale block.
pub const BLOCK_SIZE: u32 = 76;

/// Flag bits of a frame.
pub const TRANSLATE: u32 = 0;

pub const ROTATE: u32 = 1;

pub const SCALE: u32 = 2;

/// Fields of a frame header: flags, start time, end time.
pub open spec fn frame_layout() -> Seq<Kind> {
    seq![Kind::U32, Kind::U32, Kind::U32]
}

/// Fields of a block: seven `f32` values, three splines of 16 bytes.
pub open spec fn block_layout() -> Seq<Kind> {
    seq![
        Kind::U32,
        Kind::U32,
        Kind::U32,
        Kind::U32,
        Kind::U32,
        Kind::U32,
        Kind::U32,
        Kind::Bytes(16),
        Kind::Bytes(16),
        Kind::Bytes(16),
    ]
}

pub(crate) fn frame_layout_exec() -> (r: Vec<Kind>)
    ensures
        r@ == frame_layout(),
        size(frame_layout()) == FRAME_SIZE,
{
    let r = vec![Kind::U32, Kind::U32, Kind::U32];
    proof {
        assert(r@ =~= frame_layout());
        reveal_with_fuel(size, 4);
    }
    r
}

fn block_layout_exec() -> (r: Vec<Kind>)
    ensures
        r@ == block_layout(),
        size(block_layout()) == BLOCK_SIZE,
{
    let r = vec![
        Kind::U32,
        Kind::U32,
        Kind::U32,
        Kind::U32,
        Kind::U32,
        Kind::U32,
        Kind::U32,
        Kind::Bytes(16),
        Kind::Bytes(16),
        Kind::Bytes(16),
    ];
    proof {
        assert(r@ =~= block_layout());
        reveal_with_fuel(size, 11);
    }
    r
}

/// The vector of fields `i` to `i + 2`.
pub open spec fn vec_at(f: Seq<FieldV>, i: int) -> Vec3 {
    Vec3 { x: w32(f, i), y: w32(f, i + 1), z: w32(f, i + 2) }
}

/// The fields of the block at `pos`, if the bytes hold one there.
pub open spec fn block_at(s: Seq<u8>, pos: int) -> Option<Seq<FieldV>> {
    if 0 <= pos && pos + BLOCK_SIZE <= s.len() {
        Some(decode(block_layout(), s.subrange(pos, pos + BLOCK_SIZE)))
    } else {
        None
    }
}

/// The translation of block fields.
pub open spec fn translate_of(f: Seq<FieldV>) -> TranslateData<Seq<u8>> {
    TranslateData {
        base: vec_at(f, 0),
        garbage: w32(f, 3),
        delta: vec_at(f, 4),
        spline_x: wbytes(f, 7),
        spline_y: wbytes(f, 8),
        spline_z: wbytes(f, 9),
    }
}

/// The rotation of block fields.
pub open spec fn rotate_of(f: Seq<FieldV>) -> RotateData<Seq<u8>> {
    RotateData {
        base: Quaternion { x: w32(f, 0), y: w32(f, 1), z: w32(f, 2), w: w32(f, 3) },
        delta: vec_at(f, 4),
        spline_x: wbytes(f, 7),
        spline_y: wbytes(f, 8),
        spline_z: wbytes(f, 9),
    }
}

/// The scale of block fields.
pub open spec fn scale_of(f: Seq<FieldV>) -> ScaleData<Seq<u8>> {
    ScaleData {
        base: vec_at(f, 0),
        garbage: w32(f, 3),
        delta: vec_at(f, 4),
        spline_x: wbytes(f, 7),
        spline_y: wbytes(f, 8),
        spline_z: wbytes(f, 9),
    }
}

/// The block fields of seven values and three splines.
pub open spec fn block_fields(v: Seq<u32>, x: Seq<u8>, y: Seq<u8>, z: Seq<u8>) -> Seq<FieldV> {
    seq![
        FieldV::U32(v[0]),
        FieldV::U32(v[1]),
        FieldV::U32(v[2]),
        FieldV::U32(v[3]),
        FieldV::U32(v[4]),
        FieldV::U32(v[5]),
        FieldV::U32(v[6]),
        FieldV::Bytes(x),
        FieldV::Bytes(y),
        FieldV::Bytes(z),
    ]
}

/// The block of seven values and three splines, if each spline has 16
/// bytes.
pub open spec fn block_bytes(v: Seq<u32>, x: Seq<u8>, y: Seq<u8>, z: Seq<u8>) -> Option<Seq<u8>> {
    if x.len() == 16 && y.len() == 16 && z.len() == 16 {
        Some(encode(block_fields(v, x, y, z)))
    } else {
        None
    }
}

/// The block of a translation.
pub open spec fn translate_bytes(t: TranslateData<Seq<u8>>) -> Option<Seq<u8>> {
    block_bytes(
        seq![t.base.x, t.base.y, t.base.z, t.garbage, t.delta.x, t.delta.y, t.delta.z],
        t.spline_x,
        t.spline_y,
        t.spline_z,
    )
}

/// The block of a rotation.
pub open spec fn rotate_bytes(t: RotateData<Seq<u8>>) -> Option<Seq<u8>> {
    block_bytes(
        seq![t.base.x, t.base.y, t.base.z, t.base.w, t.delta.x, t.delta.y, t.delta.z],
        t.spline_x,
        t.spline_y,
        t.spline_z,
    )
}

/// The block of a scale.
pub open spec fn scale_bytes(t: ScaleData<Seq<u8>>) -> Option<Seq<u8>> {
    block_bytes(
        seq![t.base.x, t.base.y, t.base.z, t.garbage, t.delta.x, t.delta.y, t.delta.z],
        t.spline_x,
        t.spline_y,
        t.spline_z,
    )
}

/// The flag word of a frame with the given parts.
pub open spec fn frame_flags(t: bool, r: bool, s: bool) -> u32 {
    (if t { 1u32 } else { 0u32 }) | (if r { 2u32 } else { 0u32 }) | (if s { 4u32 } else { 0u32 })
}

/// The bits of a frame flag word are its parts, and it has no other.
pub proof fn lemma_frame_flags(t: bool, r: bool, s: bool)
    by (bit_vector)
    ensures
        bit(frame_flags(t, r, s), 0) == t,
        bit(frame_flags(t, r, s), 1) == r,
        bit(frame_flags(t, r, s), 2) == s,
        frame_flags(t, r, s) < 8,
{
}

/// A flag word of the three known bits is the word of its bits.
pub proof fn lemma_frame_flags_rebuild(x: u32)
    by (bit_vector)
    requires
        x < 8,
    ensures
        x == frame_flags(bit(x, 0), bit(x, 1), bit(x, 2)),
{
}

/// The frame at the front of `s`, and its size in bytes, if `s` starts
/// with one: a header with only the three known flags, then a block for
/// each flag that is set.
pub open spec fn parse_frame(s: Seq<u8>) -> Option<(ObjectMotionSiFrame<Seq<u8>>, int)> {
    if s.len() < FRAME_SIZE {
        None
    } else {
        let h = decode(frame_layout(), s);
        let fl = w32(h, 0);
        let p1 = FRAME_SIZE as int;
        let p2 = if bit(fl, TRANSLATE) { p1 + BLOCK_SIZE } else { p1 };
        let p3 = if bit(fl, ROTATE) { p2 + BLOCK_SIZE } else { p2 };
        let end = if bit(fl, SCALE) { p3 + BLOCK_SIZE } else { p3 };
        if fl >= 8 || end > s.len() {
            None
        } else {
            Some(
                (
                    ObjectMotionSiFrame {
                        start_time: w32(h, 1),
                        end_time: w32(h, 2),
                        translate: if bit(fl, TRANSLATE) {
                            Some(translate_of(block_at(s, p1).unwrap()))
                        } else {
                            None
                        },
                        rotate: if bit(fl, ROTATE) {
                            Some(rotate_of(block_at(s, p2).unwrap()))
                        } else {
                            None
                        },
                        scale: if bit(fl, SCALE) {
                            Some(scale_of(block_at(s, p3).unwrap()))
                        } else {
                            None
                        },
                    },
                    end,
                ),
            )
        }
    }
}

/// The frames that `s` holds, `count` of them up to its last byte.
pub open spec fn parse_frames(s: Seq<u8>, count: nat) -> Option<Seq<ObjectMotionSiFrame<Seq<u8>>>>
    decreases count,
{
    if count == 0 {
        if s.len() == 0 {
            Some(Seq::empty())
        } else {
            None
        }
    } else {
        match parse_frame(s) {
            None => None,
            Some(p) => match parse_frames(s.subrange(p.1, s.len() as int), (count - 1) as nat) {
                None => None,
                Some(rest) => Some(seq![p.0] + rest),
            },
        }
    }
}

/// A present block's bytes, or nothing.
pub open spec fn opt_bytes(o: Option<Option<Seq<u8>>>) -> Option<Seq<u8>> {
    match o {
        None => Some(Seq::empty()),
        Some(b) => b,
    }
}

/// The bytes of a frame, if each of its splines has 16 bytes.
pub open spec fn serialize_frame(fr: ObjectMotionSiFrame<Seq<u8>>) -> Option<Seq<u8>> {
    let h = encode(
        seq![
            FieldV::U32(frame_flags(fr.translate is Some, fr.rotate is Some, fr.scale is Some)),
            FieldV::U32(fr.start_time),
            FieldV::U32(fr.end_time),
        ],
    );
    let t = opt_bytes(
        match fr.translate {
            Some(x) => Some(translate_bytes(x)),
            None => None,
        },
    );
    let r = opt_bytes(
        match fr.rotate {
            Some(x) => Some(rotate_bytes(x)),
            None => None,
        },
    );
    let c = opt_bytes(
        match fr.scale {
            Some(x) => Some(scale_bytes(x)),
            None => None,
        },
    );
    match (t, r, c) {
        (Some(t), Some(r), Some(c)) => Some(h + t + r + c),
        _ => None,
    }
}

/// The bytes of frames, one after the other.
pub open spec fn serialize_frames(frames: Seq<ObjectMotionSiFrame<Seq<u8>>>) -> Option<Seq<u8>>
    decreases frames.len(),
{
    if frames.len() == 0 {
        Some(Seq::empty())
    } else {
        match (serialize_frame(frames[0]), serialize_frames(frames.drop_first())) {
            (Some(a), Some(b)) => Some(a + b),
            _ => None,
        }
    }
}

/// The size of a frame: its header and one block for each part.
pub open spec fn frame_size(fr: ObjectMotionSiFrame<Seq<u8>>) -> nat {
    FRAME_SIZE as nat + (if fr.translate is Some { BLOCK_SIZE as nat } else { 0 }) + (
    if fr.rotate is Some {
        BLOCK_SIZE as nat
    } else {
        0
    }) + (if fr.scale is Some { BLOCK_SIZE as nat } else { 0 })
}

/// The size of frames, one after the other.
pub open spec fn frames_size(frames: Seq<ObjectMotionSiFrame<Seq<u8>>>) -> nat
    decreases frames.len(),
{
    if frames.len() == 0 {
        0
    } else {
        frames_size(frames.drop_last()) + frame_size(frames.last())
    }
}

/// Block fields of a layout block are seven values and three splines of 16
/// bytes, and they encode to 76 bytes that decode back to them.
proof fn lemma_block_fields(v: Seq<u32>, x: Seq<u8>, y: Seq<u8>, z: Seq<u8>)
    requires
        v.len() == 7,
        x.len() == 16,
        y.len() == 16,
        z.len() == 16,
    ensures
        conforms_all(block_fields(v, x, y, z), block_layout()),
        encode(block_fields(v, x, y, z)).len() == BLOCK_SIZE,
        decode(block_layout(), encode(block_fields(v, x, y, z))) == block_fields(v, x, y, z),
{
    let f = block_fields(v, x, y, z);
    assert(conforms_all(f, block_layout()));
    lemma_encode_size(f, block_layout());
    lemma_decode_encode(f, block_layout());
    reveal_with_fuel(size, 11);
}

/// The block at a position is written back as the bytes it was read from.
proof fn lemma_block_at(s: Seq<u8>, pos: int)
    requires
        block_at(s, pos) is Some,
    ensures
        ({
            let f = block_at(s, pos).unwrap();
            &&& translate_bytes(translate_of(f)) == Some(s.subrange(pos, pos + BLOCK_SIZE))
            &&& rotate_bytes(rotate_of(f)) == Some(s.subrange(pos, pos + BLOCK_SIZE))
            &&& scale_bytes(scale_of(f)) == Some(s.subrange(pos, pos + BLOCK_SIZE))
        }),
{
    let b = s.subrange(pos, pos + BLOCK_SIZE);
    let f = decode(block_layout(), b);
    reveal_with_fuel(size, 11);
    lemma_decode_conforms(block_layout(), b);
    lemma_encode_decode(block_layout(), b);
    assert(conforms(f[7], block_layout()[7]));
    assert(conforms(f[8], block_layout()[8]));
    assert(conforms(f[9], block_layout()[9]));
    crate::record::lemma_conforming_fields(f, block_layout());
    let t = translate_of(f);
    assert(block_fields(
        seq![t.base.x, t.base.y, t.base.z, t.garbage, t.delta.x, t.delta.y, t.delta.z],
        t.spline_x,
        t.spline_y,
        t.spline_z,
    ) =~= f);
    let r = rotate_of(f);
    assert(block_fields(
        seq![r.base.x, r.base.y, r.base.z, r.base.w, r.delta.x, r.delta.y, r.delta.z],
        r.spline_x,
        r.spline_y,
        r.spline_z,
    ) =~= f);
}

/// The header of a frame.
pub open spec fn frame_header(fr: ObjectMotionSiFrame<Seq<u8>>) -> Seq<u8> {
    encode(
        seq![
            FieldV::U32(frame_flags(fr.translate is Some, fr.rotate is Some, fr.scale is Some)),
            FieldV::U32(fr.start_time),
            FieldV::U32(fr.end_time),
        ],
    )
}

/// A frame that was read is written back as the bytes it was read from.
proof fn lemma_frame_bytes(s: Seq<u8>)
    requires
        parse_frame(s) is Some,
    ensures
        serialize_frame(parse_frame(s).unwrap().0) == Some(s.take(parse_frame(s).unwrap().1)),
{
    let h = decode(frame_layout(), s);
    let fl = w32(h, 0);
    let (fr, n) = parse_frame(s).unwrap();
    reveal_with_fuel(size, 4);
    crate::record::lemma_decode_prefix_bytes(frame_layout(), s);
    lemma_decode_conforms(frame_layout(), s.take(12));
    lemma_encode_decode(frame_layout(), s.take(12));
    crate::record::lemma_conforming_fields(h, frame_layout());
    lemma_frame_flags(bit(fl, TRANSLATE), bit(fl, ROTATE), bit(fl, SCALE));
    lemma_frame_flags_rebuild(fl);
    assert(frame_header(fr) =~= s.take(12)) by {
        assert(h =~= seq![
            FieldV::U32(frame_flags(fr.translate is Some, fr.rotate is Some, fr.scale is Some)),
            FieldV::U32(fr.start_time),
            FieldV::U32(fr.end_time),
        ]);
    }
    let p1 = 12int;
    let p2 = if bit(fl, TRANSLATE) { p1 + 76 } else { p1 };
    let p3 = if bit(fl, ROTATE) { p2 + 76 } else { p2 };
    if bit(fl, TRANSLATE) {
        lemma_block_at(s, p1);
    }
    if bit(fl, ROTATE) {
        lemma_block_at(s, p2);
    }
    if bit(fl, SCALE) {
        lemma_block_at(s, p3);
    }
    let t = opt_bytes(match fr.translate { Some(x) => Some(translate_bytes(x)), None => None }).unwrap();
    let r = opt_bytes(match fr.rotate { Some(x) => Some(rotate_bytes(x)), None => None }).unwrap();
    let c = opt_bytes(match fr.scale { Some(x) => Some(scale_bytes(x)), None => None }).unwrap();
    assert(frame_header(fr) + t + r + c =~= s.take(n));
}

/// Frames that were read are written back as the bytes they were read
/// from.
pub proof fn lemma_frames_bytes(s: Seq<u8>, count: nat)
    requires
        parse_frames(s, count) is Some,
    ensures
        serialize_frames(parse_frames(s, count).unwrap()) == Some(s),
    decreases count,
{
    let fs = parse_frames(s, count).unwrap();
    if count == 0 {
        assert(fs =~= Seq::<ObjectMotionSiFrame<Seq<u8>>>::empty());
    } else {
        let (fr, n) = parse_frame(s).unwrap();
        let rest_s = s.subrange(n, s.len() as int);
        lemma_frame_bytes(s);
        lemma_frames_bytes(rest_s, (count - 1) as nat);
        let rest = parse_frames(rest_s, (count - 1) as nat).unwrap();
        assert(fs[0] == fr);
        assert(fs.drop_first() =~= rest);
        assert(s.take(n) + rest_s =~= s);
    }
}

/// The block written for a translation reads back as that translation, and
/// likewise for a rotation and a scale.
proof fn lemma_block_values(s: Seq<u8>, pos: int, b: Seq<u8>)
    requires
        0 <= pos,
        pos + BLOCK_SIZE <= s.len(),
        s.subrange(pos, pos + BLOCK_SIZE) == b,
    ensures
        forall|t: TranslateData<Seq<u8>>| #[trigger] translate_bytes(t) == Some(b) ==> translate_of(
            block_at(s, pos).unwrap(),
        ) == t,
        forall|t: RotateData<Seq<u8>>| #[trigger] rotate_bytes(t) == Some(b) ==> rotate_of(
            block_at(s, pos).unwrap(),
        ) == t,
        forall|t: ScaleData<Seq<u8>>| #[trigger] scale_bytes(t) == Some(b) ==> scale_of(
            block_at(s, pos).unwrap(),
        ) == t,
{
    assert forall|t: TranslateData<Seq<u8>>| #[trigger] translate_bytes(t) == Some(b) implies translate_of(
        block_at(s, pos).unwrap(),
    ) == t by {
        lemma_block_fields(
            seq![t.base.x, t.base.y, t.base.z, t.garbage, t.delta.x, t.delta.y, t.delta.z],
            t.spline_x,
            t.spline_y,
            t.spline_z,
        );
    }
    assert forall|t: RotateData<Seq<u8>>| #[trigger] rotate_bytes(t) == Some(b) implies rotate_of(
        block_at(s, pos).unwrap(),
    ) == t by {
        lemma_block_fields(
            seq![t.base.x, t.base.y, t.base.z, t.base.w, t.delta.x, t.delta.y, t.delta.z],
            t.spline_x,
            t.spline_y,
            t.spline_z,
        );
    }
    assert forall|t: ScaleData<Seq<u8>>| #[trigger] scale_bytes(t) == Some(b) implies scale_of(
        block_at(s, pos).unwrap(),
    ) == t by {
        lemma_block_fields(
            seq![t.base.x, t.base.y, t.base.z, t.garbage, t.delta.x, t.delta.y, t.delta.z],
            t.spline_x,
            t.spline_y,
            t.spline_z,
        );
    }
}

/// A block that was written has 76 bytes.
proof fn lemma_block_len(v: Seq<u32>, x: Seq<u8>, y: Seq<u8>, z: Seq<u8>)
    requires
        v.len() == 7,
        block_bytes(v, x, y, z) is Some,
    ensures
        block_bytes(v, x, y, z).unwrap().len() == BLOCK_SIZE,
{
    lemma_block_fields(v, x, y, z);
}

/// A frame that was written, whatever follows it, reads back as the frame,
/// and its bytes have the frame's size.
pub proof fn lemma_frame_values(fr: ObjectMotionSiFrame<Seq<u8>>, rest: Seq<u8>)
    requires
        serialize_frame(fr) is Some,
    ensures
        serialize_frame(fr).unwrap().len() == frame_size(fr),
        parse_frame(serialize_frame(fr).unwrap() + rest) == Some((fr, frame_size(fr) as int)),
{
    let hf = seq![
        FieldV::U32(frame_flags(fr.translate is Some, fr.rotate is Some, fr.scale is Some)),
        FieldV::U32(fr.start_time),
        FieldV::U32(fr.end_time),
    ];
    let h = encode(hf);
    reveal_with_fuel(size, 4);
    assert(conforms_all(hf, frame_layout()));
    lemma_encode_size(hf, frame_layout());
    lemma_decode_encode(hf, frame_layout());
    lemma_frame_flags(fr.translate is Some, fr.rotate is Some, fr.scale is Some);
    let t = opt_bytes(match fr.translate { Some(x) => Some(translate_bytes(x)), None => None }).unwrap();
    let r = opt_bytes(match fr.rotate { Some(x) => Some(rotate_bytes(x)), None => None }).unwrap();
    let c = opt_bytes(match fr.scale { Some(x) => Some(scale_bytes(x)), None => None }).unwrap();
    if let Some(x) = fr.translate {
        lemma_block_len(seq![x.base.x, x.base.y, x.base.z, x.garbage, x.delta.x, x.delta.y, x.delta.z], x.spline_x, x.spline_y, x.spline_z);
    }
    if let Some(x) = fr.rotate {
        lemma_block_len(seq![x.base.x, x.base.y, x.base.z, x.base.w, x.delta.x, x.delta.y, x.delta.z], x.spline_x, x.spline_y, x.spline_z);
    }
    if let Some(x) = fr.scale {
        lemma_block_len(seq![x.base.x, x.base.y, x.base.z, x.garbage, x.delta.x, x.delta.y, x.delta.z], x.spline_x, x.spline_y, x.spline_z);
    }
    let all = h + t + r + c + rest;
    assert(all.len() >= 12);
    crate::record::lemma_decode_prefix_bytes(frame_layout(), all);
    assert(all.take(12) =~= h);
    let p1 = 12int;
    let p2 = p1 + t.len();
    let p3 = p2 + r.len();
    if fr.translate is Some {
        assert(all.subrange(p1, p1 + 76) =~= t);
        lemma_block_values(all, p1, t);
    }
    if fr.rotate is Some {
        assert(all.subrange(p2, p2 + 76) =~= r);
        lemma_block_values(all, p2, r);
    }
    if fr.scale is Some {
        assert(all.subrange(p3, p3 + 76) =~= c);
        lemma_block_values(all, p3, c);
    }
    assert(serialize_frame(fr).unwrap() + rest =~= all);
}

/// Frames that were written read back as the frames, and their bytes have
/// the frames' size.
pub proof fn lemma_frames_values(fs: Seq<ObjectMotionSiFrame<Seq<u8>>>)
    requires
        serialize_frames(fs) is Some,
    ensures
        serialize_frames(fs).unwrap().len() == frames_size(fs),
        parse_frames(serialize_frames(fs).unwrap(), fs.len()) == Some(fs),
    decreases fs.len(),
{
    if fs.len() == 0 {
        assert(fs =~= Seq::<ObjectMotionSiFrame<Seq<u8>>>::empty());
    } else {
        let a = serialize_frame(fs[0]).unwrap();
        let b = serialize_frames(fs.drop_first()).unwrap();
        lemma_frames_values(fs.drop_first());
        lemma_frame_values(fs[0], b);
        let all = a + b;
        assert(all.subrange(a.len() as int, all.len() as int) =~= b);
        assert(seq![fs[0]] + fs.drop_first() =~= fs);
        lemma_frames_size_first(fs);
    }
}

/// The size of frames splits into the first frame and the rest.
proof fn lemma_frames_size_first(fs: Seq<ObjectMotionSiFrame<Seq<u8>>>)
    requires
        fs.len() > 0,
    ensures
        frames_size(fs) == frame_size(fs[0]) + frames_size(fs.drop_first()),
    decreases fs.len(),
{
    if fs.len() > 1 {
        lemma_frames_size_first(fs.drop_last());
        assert(fs.drop_last().drop_first() =~= fs.drop_first().drop_last());
    } else {
        assert(fs.drop_first() =~= Seq::<ObjectMotionSiFrame<Seq<u8>>>::empty());
        assert(fs.drop_last() =~= Seq::<ObjectMotionSiFrame<Seq<u8>>>::empty());
    }
}

fn read_block(data: &[u8], pos: usize) -> (r: Vec<Fld>)
    requires
        pos + BLOCK_SIZE <= data@.len(),
    ensures
        fields_view(r@) == block_at(data@, pos as int).unwrap(),
        r@.len() == 10,
        forall|k: int| 0 <= k < 7 ==> (#[trigger] fields_view(r@)[k]) is U32,
        forall|k: int| 7 <= k < 10 ==> (#[trigger] fields_view(r@)[k]) is Bytes,
{
    let l = block_layout_exec();
    let b = slice_subrange(data, pos, data.len());
    let f = decode_record(b, l.as_slice());
    proof {
        crate::record::lemma_decode_prefix_bytes(block_layout(), b@);
        assert(b@.take(76) =~= data@.subrange(pos as int, pos + 76));
        assert forall|k: int| 0 <= k < 10 implies conforms(#[trigger] fields_view(f@)[k], block_layout()[k]) by {}
    }
    f
}

fn read_translate(data: &[u8], pos: usize) -> (r: TranslateData<Vec<u8>>)
    requires
        pos + BLOCK_SIZE <= data@.len(),
    ensures
        ({
            let t = translate_of(block_at(data@, pos as int).unwrap());
            &&& r.base == t.base && r.delta == t.delta && r.garbage == t.garbage
            &&& r.spline_x@ == t.spline_x && r.spline_y@ == t.spline_y && r.spline_z@ == t.spline_z
        }),
{
    let f = read_block(data, pos);
    TranslateData {
        base: Vec3 { x: get_u32(&f, 0), y: get_u32(&f, 1), z: get_u32(&f, 2) },
        garbage: get_u32(&f, 3),
        delta: Vec3 { x: get_u32(&f, 4), y: get_u32(&f, 5), z: get_u32(&f, 6) },
        spline_x: copy_bytes(get_bytes(&f, 7)),
        spline_y: copy_bytes(get_bytes(&f, 8)),
        spline_z: copy_bytes(get_bytes(&f, 9)),
    }
}

fn read_rotate(data: &[u8], pos: usize) -> (r: RotateData<Vec<u8>>)
    requires
        pos + BLOCK_SIZE <= data@.len(),
    ensures
        ({
            let t = rotate_of(block_at(data@, pos as int).unwrap());
            &&& r.base == t.base && r.delta == t.delta
            &&& r.spline_x@ == t.spline_x && r.spline_y@ == t.spline_y && r.spline_z@ == t.spline_z
        }),
{
    let f = read_block(data, pos);
    RotateData {
        base: Quaternion { x: get_u32(&f, 0), y: get_u32(&f, 1), z: get_u32(&f, 2), w: get_u32(&f, 3) },
        delta: Vec3 { x: get_u32(&f, 4), y: get_u32(&f, 5), z: get_u32(&f, 6) },
        spline_x: copy_bytes(get_bytes(&f, 7)),
        spline_y: copy_bytes(get_bytes(&f, 8)),
        spline_z: copy_bytes(get_bytes(&f, 9)),
    }
}

fn read_scale(data: &[u8], pos: usize) -> (r: ScaleData<Vec<u8>>)
    requires
        pos + BLOCK_SIZE <= data@.len(),
    ensures
        ({
            let t = scale_of(block_at(data@, pos as int).unwrap());
            &&& r.base == t.base && r.delta == t.delta && r.garbage == t.garbage
            &&& r.spline_x@ == t.spline_x && r.spline_y@ == t.spline_y && r.spline_z@ == t.spline_z
        }),
{
    let f = read_block(data, pos);
    ScaleData {
        base: Vec3 { x: get_u32(&f, 0), y: get_u32(&f, 1), z: get_u32(&f, 2) },
        garbage: get_u32(&f, 3),
        delta: Vec3 { x: get_u32(&f, 4), y: get_u32(&f, 5), z: get_u32(&f, 6) },
        spline_x: copy_bytes(get_bytes(&f, 7)),
        spline_y: copy_bytes(get_bytes(&f, 8)),
        spline_z: copy_bytes(get_bytes(&f, 9)),
    }
}

/// Reads the frame at the front of `data`, and its size.
pub fn read_frame(data: &[u8]) -> (r: Result<(ObjectMotionSiFrame<Vec<u8>>, usize), Error>)
    ensures
        match parse_frame(data@) {
            Some(p) => r matches Ok(x) && x.0.deep_view() == p.0 && x.1 == p.1,
            None => r == Err::<(ObjectMotionSiFrame<Vec<u8>>, usize), Error>(Error::Invalid),
        },
{
    if data.len() < 12 {
        return Err(Error::Invalid);
    }
    let l = frame_layout_exec();
    let h = decode_record(data, l.as_slice());
    proof {
        assert forall|k: int| 0 <= k < 3 implies conforms(#[trigger] fields_view(h@)[k], frame_layout()[k]) by {}
    }
    let fl = get_u32(&h, 0);
    let start_time = get_u32(&h, 1);
    let end_time = get_u32(&h, 2);
    let has_t = bit_exec(fl, TRANSLATE);
    let has_r = bit_exec(fl, ROTATE);
    let has_s = bit_exec(fl, SCALE);
    let p1: usize = 12;
    let p2: usize = if has_t { p1 + 76 } else { p1 };
    let p3: usize = if has_r { p2 + 76 } else { p2 };
    let end: usize = if has_s { p3 + 76 } else { p3 };
    if fl >= 8 || end > data.len() {
        return Err(Error::Invalid);
    }
    let translate = if has_t {
        Some(read_translate(data, p1))
    } else {
        None
    };
    let rotate = if has_r {
        Some(read_rotate(data, p2))
    } else {
        None
    };
    let scale = if has_s {
        Some(read_scale(data, p3))
    } else {
        None
    };
    Ok((ObjectMotionSiFrame { start_time, end_time, translate, rotate, scale }, end))
}

/// `parse_frames` takes one frame off the front.
proof fn lemma_frames_step(s: Seq<u8>, pos: int, count: nat)
    requires
        0 <= pos <= s.len(),
        count > 0,
    ensures
        parse_frames(s.subrange(pos, s.len() as int), count) == (match parse_frame(
            s.subrange(pos, s.len() as int),
        ) {
            None => None,
            Some(p) => match parse_frames(s.subrange(pos + p.1, s.len() as int), (count - 1) as nat) {
                None => None,
                Some(rest) => Some(seq![p.0] + rest),
            },
        }),
{
    let t = s.subrange(pos, s.len() as int);
    if let Some(p) = parse_frame(t) {
        assert(t.subrange(p.1, t.len() as int) =~= s.subrange(pos + p.1, s.len() as int));
    }
}

/// Reads `count` frames that fill `data`.
pub fn read_si_script_frames(data: &[u8], count: u32) -> (r: Result<
    Vec<ObjectMotionSiFrame<Vec<u8>>>,
    Error,
>)
    ensures
        match parse_frames(data@, count as nat) {
            Some(fs) => r matches Ok(x) && x.deep_view() == fs,
            None => r == Err::<Vec<ObjectMotionSiFrame<Vec<u8>>>, Error>(Error::Invalid),
        },
{
    let mut frames: Vec<ObjectMotionSiFrame<Vec<u8>>> = Vec::new();
    let mut pos: usize = 0;
    let mut i: u32 = 0;
    let len = data.len();
    proof {
        assert(data@.subrange(0, len as int) =~= data@);
        if let Some(fs) = parse_frames(data@, count as nat) {
            assert(frames.deep_view() + fs =~= fs);
        }
    }
    while i < count
        invariant
            len == data@.len(),
            pos <= len,
            i <= count,
            parse_frames(data@, count as nat) == (match parse_frames(
                data@.subrange(pos as int, len as int),
                (count - i) as nat,
            ) {
                Some(rest) => Some(frames.deep_view() + rest),
                None => None,
            }),
        decreases count - i,
    {
        proof {
            lemma_frames_step(data@, pos as int, (count - i) as nat);
        }
        let rest = slice_subrange(data, pos, len);
        let (fr, n) = read_frame(rest)?;
        let ghost before = frames.deep_view();
        let ghost frv = fr.deep_view();
        frames.push(fr);
        proof {
            assert(frames.deep_view() =~= before + seq![frv]);
            if let Some(t) = parse_frames(data@.subrange(pos + n, len as int), (count - i - 1) as nat) {
                assert(before + (seq![frv] + t) =~= frames.deep_view() + t);
            }
        }
        pos = pos + n;
        i = i + 1;
    }
    if pos != len {
        return Err(Error::Invalid);
    }
    proof {
        assert(data@.subrange(pos as int, len as int) =~= Seq::<u8>::empty());
        assert(frames.deep_view() + Seq::<ObjectMotionSiFrame<Seq<u8>>>::empty() =~= frames.deep_view());
    }
    Ok(frames)
}

fn write_block(v: [u32; 7], x: &Vec<u8>, y: &Vec<u8>, z: &Vec<u8>, out: &mut Vec<u8>) -> (r: Result<(), Error>)
    ensures
        match block_bytes(v@, x@, y@, z@) {
            Some(b) => r is Ok && final(out)@ == old(out)@ + b,
            None => r == Err::<(), Error>(Error::Invalid) && final(out)@ == old(out)@,
        },
{
    if x.len() != 16 || y.len() != 16 || z.len() != 16 {
        return Err(Error::Invalid);
    }
    let fs = vec![
        Fld::U32(v[0]),
        Fld::U32(v[1]),
        Fld::U32(v[2]),
        Fld::U32(v[3]),
        Fld::U32(v[4]),
        Fld::U32(v[5]),
        Fld::U32(v[6]),
        Fld::Bytes(copy_bytes(x)),
        Fld::Bytes(copy_bytes(y)),
        Fld::Bytes(copy_bytes(z)),
    ];
    proof {
        assert(fields_view(fs@) =~= block_fields(v@, x@, y@, z@));
    }
    encode_record(&fs, out);
    Ok(())
}

/// Writes a frame.
pub fn write_frame(fr: &ObjectMotionSiFrame<Vec<u8>>, out: &mut Vec<u8>) -> (r: Result<(), Error>)
    ensures
        match serialize_frame(fr.deep_view()) {
            Some(b) => r is Ok && final(out)@ == old(out)@ + b,
            None => r == Err::<(), Error>(Error::Invalid) && final(out)@ == old(out)@,
        },
{
    let fl = (if fr.translate.is_some() { 1u32 } else { 0u32 }) | (if fr.rotate.is_some() { 2u32 } else {
        0u32
    }) | (if fr.scale.is_some() { 4u32 } else { 0u32 });
    let hf = vec![Fld::U32(fl), Fld::U32(fr.start_time), Fld::U32(fr.end_time)];
    let mut buf: Vec<u8> = Vec::new();
    let ghost o = buf@;
    proof {
        assert(fields_view(hf@) =~= seq![
            FieldV::U32(frame_flags(fr.translate is Some, fr.rotate is Some, fr.scale is Some)),
            FieldV::U32(fr.start_time),
            FieldV::U32(fr.end_time),
        ]);
    }
    encode_record(&hf, &mut buf);
    let ghost o1 = buf@;
    match &fr.translate {
        Some(t) => {
            let v = [t.base.x, t.base.y, t.base.z, t.garbage, t.delta.x, t.delta.y, t.delta.z];
            assert(v@ =~= seq![t.base.x, t.base.y, t.base.z, t.garbage, t.delta.x, t.delta.y, t.delta.z]);
            write_block(v, &t.spline_x, &t.spline_y, &t.spline_z, &mut buf)?;
        },
        None => {},
    }
    let ghost o2 = buf@;
    match &fr.rotate {
        Some(t) => {
            let v = [t.base.x, t.base.y, t.base.z, t.base.w, t.delta.x, t.delta.y, t.delta.z];
            assert(v@ =~= seq![t.base.x, t.base.y, t.base.z, t.base.w, t.delta.x, t.delta.y, t.delta.z]);
            write_block(v, &t.spline_x, &t.spline_y, &t.spline_z, &mut buf)?;
        },
        None => {},
    }
    let ghost o3 = buf@;
    match &fr.scale {
        Some(t) => {
            let v = [t.base.x, t.base.y, t.base.z, t.garbage, t.delta.x, t.delta.y, t.delta.z];
            assert(v@ =~= seq![t.base.x, t.base.y, t.base.z, t.garbage, t.delta.x, t.delta.y, t.delta.z]);
            write_block(v, &t.spline_x, &t.spline_y, &t.spline_z, &mut buf)?;
        },
        None => {},
    }
    proof {
        let frv = fr.deep_view();
        let t = opt_bytes(match frv.translate { Some(x) => Some(translate_bytes(x)), None => None }).unwrap();
        let r = opt_bytes(match frv.rotate { Some(x) => Some(rotate_bytes(x)), None => None }).unwrap();
        let c = opt_bytes(match frv.scale { Some(x) => Some(scale_bytes(x)), None => None }).unwrap();
        assert(o2 =~= o1 + t);
        assert(o3 =~= o2 + r);
        assert(buf@ =~= o3 + c);
        assert(buf@ =~= o + (frame_header(frv) + t + r + c));
        assert(o =~= Seq::<u8>::empty());
    }
    append_bytes(out, &buf);
    proof {
        assert(buf@ =~= serialize_frame(fr.deep_view()).unwrap());
    }
    Ok(())
}

/// Writes frames, one after the other.
pub fn write_si_script_frames(frames: &Vec<ObjectMotionSiFrame<Vec<u8>>>, out: &mut Vec<u8>) -> (r: Result<
    (),
    Error,
>)
    ensures
        match serialize_frames(frames.deep_view()) {
            Some(b) => r is Ok && final(out)@ == old(out)@ + b,
            None => r == Err::<(), Error>(Error::Invalid) && final(out)@ == old(out)@,
        },
{
    let ghost fs = frames.deep_view();
    let mut buf: Vec<u8> = Vec::new();
    let mut i: usize = 0;
    proof {
        assert(fs.subrange(0, fs.len() as int) =~= fs);
        if let Some(b) = serialize_frames(fs) {
            assert(buf@ + b =~= b);
        }
    }
    while i < frames.len()
        invariant
            fs == frames.deep_view(),
            i <= frames.len(),
            serialize_frames(fs) == (match serialize_frames(fs.subrange(i as int, fs.len() as int)) {
                Some(rest) => Some(buf@ + rest),
                None => None,
            }),
        decreases frames.len() - i,
    {
        proof {
            let t = fs.subrange(i as int, fs.len() as int);
            assert(t.drop_first() =~= fs.subrange(i + 1, fs.len() as int));
            assert(t[0] == fs[i as int]);
        }
        let ghost b0 = buf@;
        match write_frame(&frames[i], &mut buf) {
            Ok(()) => {},
            Err(_) => return Err(Error::Invalid),
        }
        proof {
            let a = serialize_frame(fs[i as int]).unwrap();
            if let Some(rest) = serialize_frames(fs.subrange(i + 1, fs.len() as int)) {
                assert(b0 + (a + rest) =~= buf@ + rest);
            }
        }
        i = i + 1;
    }
    proof {
        assert(fs.subrange(i as int, fs.len() as int) =~= Seq::<ObjectMotionSiFrame<Seq<u8>>>::empty());
        assert(buf@ + Seq::<u8>::empty() =~= buf@);
    }
    append_bytes(out, &buf);
    Ok(())
}

/// The size of a frame's prefix is at most the size of all of them.
proof fn lemma_frames_size_prefix(fs: Seq<ObjectMotionSiFrame<Seq<u8>>>, i: int)
    requires
        0 <= i <= fs.len(),
    ensures
        frames_size(fs.take(i)) <= frames_size(fs),
    decreases fs.len() - i,
{
    if i < fs.len() {
        lemma_frames_size_prefix(fs, i + 1);
        assert(fs.take(i + 1).drop_last() =~= fs.take(i));
    } else {
        assert(fs.take(i) =~= fs);
    }
}

/// The size of frames, if it fits in a `u32`.
pub fn size_si_script_frames(frames: &Vec<ObjectMotionSiFrame<Vec<u8>>>) -> (r: Option<u32>)
    ensures
        r == (if frames_size(frames.deep_view()) <= u32::MAX {
            Some(frames_size(frames.deep_view()) as u32)
        } else {
            None
        }),
{
    let ghost fs = frames.deep_view();
    let mut total: u32 = 0;
    let mut i: usize = 0;
    proof {
        assert(fs.take(0) =~= Seq::<ObjectMotionSiFrame<Seq<u8>>>::empty());
    }
    while i < frames.len()
        invariant
            fs == frames.deep_view(),
            i <= frames.len(),
            total == frames_size(fs.take(i as int)),
        decreases frames.len() - i,
    {
        let fr = &frames[i];
        proof {
            assert(fs.take(i + 1).drop_last() =~= fs.take(i as int));
            assert(fs.take(i + 1).last() == fs[i as int]);
            lemma_frames_size_prefix(fs, i + 1);
        }
        let n: u32 = 12 + (if fr.translate.is_some() { 76u32 } else { 0u32 }) + (if fr.rotate.is_some() {
            76u32
        } else {
            0u32
        }) + (if fr.scale.is_some() { 76u32 } else { 0u32 });
        total = match total.checked_add(n) {
            Some(x) => x,
            None => return None,
        };
        i = i + 1;
    }
    proof {
        assert(fs.take(i as int) =~= fs);
    }
    Some(total)
}

/// Frames that were read are as many as were asked for.
pub proof fn lemma_parse_frames_len(s: Seq<u8>, count: nat)
    requires
        parse_frames(s, count) is Some,
    ensures
        parse_frames(s, count).unwrap().len() == count,
    decreases count,
{
    if count > 0 {
        let p = parse_frame(s).unwrap();
        lemma_parse_frames_len(s.subrange(p.1, s.len() as int), (count - 1) as nat);
    }
}

/// The offset of each field of a block.
proof fn lemma_block_offsets()
    ensures
        size(block_layout()) == BLOCK_SIZE,
        forall|i: int| 0 <= i < 7 ==> #[trigger] size(block_layout().take(i)) == 4 * i && block_layout()[i] == Kind::U32,
        size(block_layout().take(7)) == 28,
        size(block_layout().take(8)) == 44,
        size(block_layout().take(9)) == 60,
{
    reveal_with_fuel(size, 11);
    assert forall|i: int| 0 <= i < 7 implies #[trigger] size(block_layout().take(i)) == 4 * i && block_layout()[i] == Kind::U32 by {
        assert(block_layout().take(i) =~= Seq::new(i as nat, |k: int| Kind::U32));
        crate::record::lemma_u32_size(i as nat);
    }
    assert(block_layout().take(7) =~= Seq::new(7, |k: int| Kind::U32));
    crate::record::lemma_u32_size(7);
    assert(block_layout().take(8) =~= Seq::new(7, |k: int| Kind::U32).push(Kind::Bytes(16)));
    assert(block_layout().take(9) =~= Seq::new(7, |k: int| Kind::U32).push(Kind::Bytes(16)).push(Kind::Bytes(16)));
}

/// A block at `pos` holds the numbers and bytes of `s` there: its seven
/// values are the little-endian numbers at `pos`, `pos + 4`, ..., and its
/// three splines the 16 bytes at `pos + 28`, `pos + 44` and `pos + 60`.
proof fn lemma_block_bytes(s: Seq<u8>, pos: int)
    requires
        block_at(s, pos) is Some,
    ensures
        ({
            let f = block_at(s, pos).unwrap();
            &&& forall|i: int| 0 <= i < 7 ==> #[trigger] w32(f, i) == crate::record::le32_at(s, pos + 4 * i)
            &&& wbytes(f, 7) == s.subrange(pos + 28, pos + 44)
            &&& wbytes(f, 8) == s.subrange(pos + 44, pos + 60)
            &&& wbytes(f, 9) == s.subrange(pos + 60, pos + 76)
        }),
{
    let b = s.subrange(pos, pos + BLOCK_SIZE);
    lemma_block_offsets();
    assert forall|i: int| 0 <= i < 7 implies #[trigger] w32(block_at(s, pos).unwrap(), i) == crate::record::le32_at(s, pos + 4 * i) by {
        crate::record::lemma_numbers_at(block_layout(), b, i);
        assert(b.subrange(4 * i, 4 * i + 4) =~= s.subrange(pos + 4 * i, pos + 4 * i + 4));
    }
    crate::record::lemma_decode_field(block_layout(), b, 7);
    crate::record::lemma_decode_field(block_layout(), b, 8);
    crate::record::lemma_decode_field(block_layout(), b, 9);
    assert(b.subrange(28, 44) =~= s.subrange(pos + 28, pos + 44));
    assert(b.subrange(44, 60) =~= s.subrange(pos + 44, pos + 60));
    assert(b.subrange(60, 76) =~= s.subrange(pos + 60, pos + 76));
}

/// The three vectors, values and splines of a block are the numbers and
/// bytes at `pos`: see `lemma_block_bytes`.
pub open spec fn block_holds(
    s: Seq<u8>,
    pos: int,
    a: Vec3,
    g: u32,
    d: Vec3,
    x: Seq<u8>,
    y: Seq<u8>,
    z: Seq<u8>,
) -> bool {
    &&& a == Vec3 {
        x: crate::record::le32_at(s, pos),
        y: crate::record::le32_at(s, pos + 4),
        z: crate::record::le32_at(s, pos + 8),
    }
    &&& g == crate::record::le32_at(s, pos + 12)
    &&& d == Vec3 {
        x: crate::record::le32_at(s, pos + 16),
        y: crate::record::le32_at(s, pos + 20),
        z: crate::record::le32_at(s, pos + 24),
    }
    &&& x == s.subrange(pos + 28, pos + 44)
    &&& y == s.subrange(pos + 44, pos + 60)
    &&& z == s.subrange(pos + 60, pos + 76)
}

/// A frame read from the front of `s` holds the numbers and bytes there,
/// little-endian: the flag word at offset 0, the start and end times at
/// offsets 4 and 8; then, for each of translation, rotation and scale in
/// that order, present exactly where its bit (`TRANSLATE`, `ROTATE`,
/// `SCALE`) is set, a block of 76 bytes: seven values (a vector, a fourth
/// value, a vector; for a rotation, a quaternion and a vector) and three
/// splines of 16 bytes. The frame takes the header and its blocks.
pub proof fn lemma_frame_read_bytes(s: Seq<u8>)
    requires
        parse_frame(s) is Some,
    ensures
        ({
            let (fr, n) = parse_frame(s).unwrap();
            let fl = crate::record::le32_at(s, 0);
            let p2 = if fr.translate is Some { 88int } else { 12int };
            let p3 = if fr.rotate is Some { p2 + 76 } else { p2 };
            &&& fr.start_time == crate::record::le32_at(s, 4)
            &&& fr.end_time == crate::record::le32_at(s, 8)
            &&& (fr.translate is Some) == bit(fl, TRANSLATE)
            &&& (fr.rotate is Some) == bit(fl, ROTATE)
            &&& (fr.scale is Some) == bit(fl, SCALE)
            &&& n == (if fr.scale is Some { p3 + 76 } else { p3 })
            &&& fr.translate matches Some(t) ==> block_holds(s, 12, t.base, t.garbage, t.delta, t.spline_x, t.spline_y, t.spline_z)
            &&& fr.rotate matches Some(r) ==> block_holds(
                s,
                p2,
                Vec3 { x: r.base.x, y: r.base.y, z: r.base.z },
                r.base.w,
                r.delta,
                r.spline_x,
                r.spline_y,
                r.spline_z,
            )
            &&& fr.scale matches Some(c) ==> block_holds(s, p3, c.base, c.garbage, c.delta, c.spline_x, c.spline_y, c.spline_z)
        }),
{
    let h = decode(frame_layout(), s);
    let fl = w32(h, 0);
    reveal_with_fuel(size, 4);
    assert(frame_layout().take(0) =~= Seq::<Kind>::empty());
    assert(frame_layout().take(1) =~= seq![Kind::U32]);
    assert(frame_layout().take(2) =~= seq![Kind::U32, Kind::U32]);
    crate::record::lemma_numbers_at(frame_layout(), s, 0);
    crate::record::lemma_numbers_at(frame_layout(), s, 1);
    crate::record::lemma_numbers_at(frame_layout(), s, 2);
    let p1 = FRAME_SIZE as int;
    let p2 = if bit(fl, TRANSLATE) { p1 + BLOCK_SIZE } else { p1 };
    let p3 = if bit(fl, ROTATE) { p2 + BLOCK_SIZE } else { p2 };
    if bit(fl, TRANSLATE) {
        lemma_block_bytes(s, p1);
        let f = block_at(s, p1).unwrap();
        assert(w32(f, 0) == crate::record::le32_at(s, p1));
        assert(w32(f, 1) == crate::record::le32_at(s, p1 + 4));
        assert(w32(f, 2) == crate::record::le32_at(s, p1 + 8));
        assert(w32(f, 3) == crate::record::le32_at(s, p1 + 12));
        assert(w32(f, 4) == crate::record::le32_at(s, p1 + 16));
        assert(w32(f, 5) == crate::record::le32_at(s, p1 + 20));
        assert(w32(f, 6) == crate::record::le32_at(s, p1 + 24));
    }
    if bit(fl, ROTATE) {
        lemma_block_bytes(s, p2);
        let f = block_at(s, p2).unwrap();
        assert(w32(f, 0) == crate::record::le32_at(s, p2));
        assert(w32(f, 1) == crate::record::le32_at(s, p2 + 4));
        assert(w32(f, 2) == crate::record::le32_at(s, p2 + 8));
        assert(w32(f, 3) == crate::record::le32_at(s, p2 + 12));
        assert(w32(f, 4) == crate::record::le32_at(s, p2 + 16));
        assert(w32(f, 5) == crate::record::le32_at(s, p2 + 20));
        assert(w32(f, 6) == crate::record::le32_at(s, p2 + 24));
    }
    if bit(fl, SCALE) {
        lemma_block_bytes(s, p3);
        let f = block_at(s, p3).unwrap();
        assert(w32(f, 0) == crate::record::le32_at(s, p3));
        assert(w32(f, 1) == crate::record::le32_at(s, p3 + 4));
        assert(w32(f, 2) == crate::record::le32_at(s, p3 + 8));
        assert(w32(f, 3) == crate::record::le32_at(s, p3 + 12));
        assert(w32(f, 4) == crate::record::le32_at(s, p3 + 16));
        assert(w32(f, 5) == crate::record::le32_at(s, p3 + 20));
        assert(w32(f, 6) == crate::record::le32_at(s, p3 + 24));
    }
}

} // verus!
