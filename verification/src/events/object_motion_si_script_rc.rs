//! `OBJECT_MOTION_SI_SCRIPT` (12) in Recoil.
//!
//! The record is a 20-byte header (node index, frame count, and three
//! values the game fills in, stored as zero) followed by the frames of the
//! script: each a 12-byte header (which parts it has, start and end time)
//! followed by a 28-byte block for each of its translation, rotation and
//! scale. Recoil's blocks hold no splines: frames read from them have empty
//! splines, and the splines of a frame are not written.
use vstd::prelude::*;
use crate::anim_def::{index_of, lemma_index_of_name_at, lemma_name_reread, name_at, AnimDef, AnimDefV};
use crate::error::Error;
use crate::events::object_motion_si_script::{ObjectMotionSiScript, ObjectMotionSiScriptV};
use crate::flags::{bit, bit_exec};
use crate::float;
use crate::model::{Quaternion, Vec3};
use crate::record::{
    append_bytes, conforms, conforms_all, decode, decode_record, encode, encode_record,
    fields_view, get_u32, lemma_conforming_fields, lemma_decode_conforms, lemma_decode_encode,
    lemma_decode_prefix_bytes, lemma_encode_decode, lemma_encode_size, size, w32, FieldV, Fld,
    Kind,
};
use crate::si_script::{
    frame_flags, frame_header, frame_layout, frame_layout_exec, lemma_frame_flags,
    lemma_frame_flags_rebuild, vec_at, ObjectMotionSiFrame, RotateData, ScaleData, TranslateData,
    FRAME_SIZE, ROTATE, SCALE, TRANSLATE,
};
use vstd::slice::slice_subrange;

verus! {

broadcast use vstd::seq_lib::group_seq_properties;

/// Size of a translation, rotation or scale block.
pub const BLOCK_SIZE: u32 = 28;

/// Size of the header.
pub const HEADER: u32 = 20;

/// Fields of a block: seven `f32` values.
pub open spec fn block_layout() -> Seq<Kind> {
    seq![Kind::U32, Kind::U32, Kind::U32, Kind::U32, Kind::U32, Kind::U32, Kind::U32]
}

fn block_layout_exec() -> (r: Vec<Kind>)
    ensures
        r@ == block_layout(),
        size(block_layout()) == BLOCK_SIZE,
{
    let r = vec![Kind::U32, Kind::U32, Kind::U32, Kind::U32, Kind::U32, Kind::U32, Kind::U32];
    proof {
        assert(r@ =~= block_layout());
        reveal_with_fuel(size, 8);
    }
    r
}

/// The fields of the block at `pos`, if the bytes hold one there.
pub open spec fn block_at(s: Seq<u8>, pos: int) -> Option<Seq<FieldV>> {
    if 0 <= pos && pos + BLOCK_SIZE <= s.len() {
        Some(decode(block_layout(), s.subrange(pos, pos + BLOCK_SIZE)))
    } else {
        None
    }
}

/// The translation of block fields, without splines.
pub open spec fn translate_of(f: Seq<FieldV>) -> TranslateData<Seq<u8>> {
    TranslateData {
        base: vec_at(f, 0),
        garbage: w32(f, 3),
        delta: vec_at(f, 4),
        spline_x: Seq::empty(),
        spline_y: Seq::empty(),
        spline_z: Seq::empty(),
    }
}

/// The rotation of block fields, without splines.
pub open spec fn rotate_of(f: Seq<FieldV>) -> RotateData<Seq<u8>> {
    RotateData {
        base: Quaternion { x: w32(f, 0), y: w32(f, 1), z: w32(f, 2), w: w32(f, 3) },
        delta: vec_at(f, 4),
        spline_x: Seq::empty(),
        spline_y: Seq::empty(),
        spline_z: Seq::empty(),
    }
}

/// The scale of block fields, without splines.
pub open spec fn scale_of(f: Seq<FieldV>) -> ScaleData<Seq<u8>> {
    ScaleData {
        base: vec_at(f, 0),
        garbage: w32(f, 3),
        delta: vec_at(f, 4),
        spline_x: Seq::empty(),
        spline_y: Seq::empty(),
        spline_z: Seq::empty(),
    }
}

/// The block fields of seven values.
pub open spec fn block_fields(v: Seq<u32>) -> Seq<FieldV> {
    seq![
        FieldV::U32(v[0]),
        FieldV::U32(v[1]),
        FieldV::U32(v[2]),
        FieldV::U32(v[3]),
        FieldV::U32(v[4]),
        FieldV::U32(v[5]),
        FieldV::U32(v[6]),
    ]
}

/// The block of a translation.
pub open spec fn translate_bytes(t: TranslateData<Seq<u8>>) -> Seq<u8> {
    encode(
        block_fields(
            seq![t.base.x, t.base.y, t.base.z, t.garbage, t.delta.x, t.delta.y, t.delta.z],
        ),
    )
}

/// The block of a rotation.
pub open spec fn rotate_bytes(t: RotateData<Seq<u8>>) -> Seq<u8> {
    encode(
        block_fields(
            seq![t.base.x, t.base.y, t.base.z, t.base.w, t.delta.x, t.delta.y, t.delta.z],
        ),
    )
}

/// The block of a scale.
pub open spec fn scale_bytes(t: ScaleData<Seq<u8>>) -> Seq<u8> {
    encode(
        block_fields(
            seq![t.base.x, t.base.y, t.base.z, t.garbage, t.delta.x, t.delta.y, t.delta.z],
        ),
    )
}

/// The frame at the front of `s`, and its size in bytes, if `s` starts
/// with one: a header with only the three known flags, then a block for
/// each flag that is set.
pub open spec fn parse_frame(s: Seq<u8>) -> Option<(ObjectMotionSiFrame<Seq<u8>>, int)> {
    if s.len() < FRAME_SIZE {
        None
    } else {
        let h = decode(frame_layout(), s);
        let fl = w32(h, 0);
        let p1 = FRAME_SIZE as int;
        let p2 = if bit(fl, TRANSLATE) { p1 + BLOCK_SIZE } else { p1 };
        let p3 = if bit(fl, ROTATE) { p2 + BLOCK_SIZE } else { p2 };
        let end = if bit(fl, SCALE) { p3 + BLOCK_SIZE } else { p3 };
        if fl >= 8 || end > s.len() {
            None
        } else {
            Some(
                (
                    ObjectMotionSiFrame {
                        start_time: w32(h, 1),
                        end_time: w32(h, 2),
                        translate: if bit(fl, TRANSLATE) {
                            Some(translate_of(block_at(s, p1).unwrap()))
                        } else {
                            None
                        },
                        rotate: if bit(fl, ROTATE) {
                            Some(rotate_of(block_at(s, p2).unwrap()))
                        } else {
                            None
                        },
                        scale: if bit(fl, SCALE) {
                            Some(scale_of(block_at(s, p3).unwrap()))
                        } else {
                            None
                        },
                    },
                    end,
                ),
            )
        }
    }
}

/// The frames that `s` holds, `count` of them up to its last byte.
pub open spec fn parse_frames(s: Seq<u8>, count: nat) -> Option<Seq<ObjectMotionSiFrame<Seq<u8>>>>
    decreases count,
{
    if count == 0 {
        if s.len() == 0 {
            Some(Seq::empty())
        } else {
            None
        }
    } else {
        match parse_frame(s) {
            None => None,
            Some(p) => match parse_frames(s.subrange(p.1, s.len() as int), (count - 1) as nat) {
                None => None,
                Some(rest) => Some(seq![p.0] + rest),
            },
        }
    }
}

/// The blocks of a frame's translation, rotation and scale, each empty
/// where the frame has no such part.
pub open spec fn frame_blocks(fr: ObjectMotionSiFrame<Seq<u8>>) -> (Seq<u8>, Seq<u8>, Seq<u8>) {
    (
        match fr.translate {
            Some(x) => translate_bytes(x),
            None => Seq::empty(),
        },
        match fr.rotate {
            Some(x) => rotate_bytes(x),
            None => Seq::empty(),
        },
        match fr.scale {
            Some(x) => scale_bytes(x),
            None => Seq::empty(),
        },
    )
}

/// The bytes of a frame.
pub open spec fn serialize_frame(fr: ObjectMotionSiFrame<Seq<u8>>) -> Seq<u8> {
    let b = frame_blocks(fr);
    frame_header(fr) + b.0 + b.1 + b.2
}

/// The bytes of frames, one after the other.
pub open spec fn serialize_frames(frames: Seq<ObjectMotionSiFrame<Seq<u8>>>) -> Seq<u8>
    decreases frames.len(),
{
    if frames.len() == 0 {
        Seq::empty()
    } else {
        serialize_frame(frames[0]) + serialize_frames(frames.drop_first())
    }
}

/// The size of a frame: its header and one block for each part.
pub open spec fn frame_size(fr: ObjectMotionSiFrame<Seq<u8>>) -> nat {
    FRAME_SIZE as nat + (if fr.translate is Some { BLOCK_SIZE as nat } else { 0 }) + (
    if fr.rotate is Some {
        BLOCK_SIZE as nat
    } else {
        0
    }) + (if fr.scale is Some { BLOCK_SIZE as nat } else { 0 })
}

/// The size of frames, one after the other.
pub open spec fn frames_size(frames: Seq<ObjectMotionSiFrame<Seq<u8>>>) -> nat
    decreases frames.len(),
{
    if frames.len() == 0 {
        0
    } else {
        frames_size(frames.drop_last()) + frame_size(frames.last())
    }
}

/// Block fields of seven values encode to 28 bytes that decode back to
/// them.
proof fn lemma_block_fields(v: Seq<u32>)
    requires
        v.len() == 7,
    ensures
        conforms_all(block_fields(v), block_layout()),
        encode(block_fields(v)).len() == BLOCK_SIZE,
        decode(block_layout(), encode(block_fields(v))) == block_fields(v),
{
    let f = block_fields(v);
    assert(conforms_all(f, block_layout()));
    lemma_encode_size(f, block_layout());
    lemma_decode_encode(f, block_layout());
    reveal_with_fuel(size, 8);
}

/// The block at a position is written back as the bytes it was read from.
proof fn lemma_block_at(s: Seq<u8>, pos: int)
    requires
        block_at(s, pos) is Some,
    ensures
        ({
            let f = block_at(s, pos).unwrap();
            &&& translate_bytes(translate_of(f)) == s.subrange(pos, pos + BLOCK_SIZE)
            &&& rotate_bytes(rotate_of(f)) == s.subrange(pos, pos + BLOCK_SIZE)
            &&& scale_bytes(scale_of(f)) == s.subrange(pos, pos + BLOCK_SIZE)
        }),
{
    let b = s.subrange(pos, pos + BLOCK_SIZE);
    let f = decode(block_layout(), b);
    reveal_with_fuel(size, 8);
    lemma_decode_conforms(block_layout(), b);
    lemma_encode_decode(block_layout(), b);
    lemma_conforming_fields(f, block_layout());
    let t = translate_of(f);
    assert(block_fields(
        seq![t.base.x, t.base.y, t.base.z, t.garbage, t.delta.x, t.delta.y, t.delta.z],
    ) =~= f);
    let r = rotate_of(f);
    assert(block_fields(
        seq![r.base.x, r.base.y, r.base.z, r.base.w, r.delta.x, r.delta.y, r.delta.z],
    ) =~= f);
}

/// A frame that was read is written back as the bytes it was read from.
proof fn lemma_frame_bytes(s: Seq<u8>)
    requires
        parse_frame(s) is Some,
    ensures
        serialize_frame(parse_frame(s).unwrap().0) == s.take(parse_frame(s).unwrap().1),
{
    let h = decode(frame_layout(), s);
    let fl = w32(h, 0);
    let (fr, n) = parse_frame(s).unwrap();
    reveal_with_fuel(size, 4);
    lemma_decode_prefix_bytes(frame_layout(), s);
    lemma_decode_conforms(frame_layout(), s.take(12));
    lemma_encode_decode(frame_layout(), s.take(12));
    lemma_conforming_fields(h, frame_layout());
    lemma_frame_flags(bit(fl, TRANSLATE), bit(fl, ROTATE), bit(fl, SCALE));
    lemma_frame_flags_rebuild(fl);
    assert(frame_header(fr) =~= s.take(12)) by {
        assert(h =~= seq![
            FieldV::U32(frame_flags(fr.translate is Some, fr.rotate is Some, fr.scale is Some)),
            FieldV::U32(fr.start_time),
            FieldV::U32(fr.end_time),
        ]);
    }
    let p1 = 12int;
    let p2 = if bit(fl, TRANSLATE) { p1 + 28 } else { p1 };
    let p3 = if bit(fl, ROTATE) { p2 + 28 } else { p2 };
    if bit(fl, TRANSLATE) {
        lemma_block_at(s, p1);
    }
    if bit(fl, ROTATE) {
        lemma_block_at(s, p2);
    }
    if bit(fl, SCALE) {
        lemma_block_at(s, p3);
    }
    let b = frame_blocks(fr);
    assert(frame_header(fr) + b.0 + b.1 + b.2 =~= s.take(n));
}

/// Frames that were read are written back as the bytes they were read
/// from.
pub proof fn lemma_frames_bytes(s: Seq<u8>, count: nat)
    requires
        parse_frames(s, count) is Some,
    ensures
        serialize_frames(parse_frames(s, count).unwrap()) == s,
        parse_frames(s, count).unwrap().len() == count,
    decreases count,
{
    let fs = parse_frames(s, count).unwrap();
    if count == 0 {
        assert(fs =~= Seq::<ObjectMotionSiFrame<Seq<u8>>>::empty());
    } else {
        let (fr, n) = parse_frame(s).unwrap();
        let rest_s = s.subrange(n, s.len() as int);
        lemma_frame_bytes(s);
        lemma_frames_bytes(rest_s, (count - 1) as nat);
        let rest = parse_frames(rest_s, (count - 1) as nat).unwrap();
        assert(fs[0] == fr);
        assert(fs.drop_first() =~= rest);
        assert(s.take(n) + rest_s =~= s);
    }
}

/// The bytes of a frame have the frame's size.
proof fn lemma_frame_len(fr: ObjectMotionSiFrame<Seq<u8>>)
    ensures
        serialize_frame(fr).len() == frame_size(fr),
{
    let hf = seq![
        FieldV::U32(frame_flags(fr.translate is Some, fr.rotate is Some, fr.scale is Some)),
        FieldV::U32(fr.start_time),
        FieldV::U32(fr.end_time),
    ];
    reveal_with_fuel(size, 4);
    assert(conforms_all(hf, frame_layout()));
    lemma_encode_size(hf, frame_layout());
    if let Some(x) = fr.translate {
        lemma_block_fields(
            seq![x.base.x, x.base.y, x.base.z, x.garbage, x.delta.x, x.delta.y, x.delta.z],
        );
    }
    if let Some(x) = fr.rotate {
        lemma_block_fields(
            seq![x.base.x, x.base.y, x.base.z, x.base.w, x.delta.x, x.delta.y, x.delta.z],
        );
    }
    if let Some(x) = fr.scale {
        lemma_block_fields(
            seq![x.base.x, x.base.y, x.base.z, x.garbage, x.delta.x, x.delta.y, x.delta.z],
        );
    }
}

/// The size of frames splits into the first frame and the rest.
proof fn lemma_frames_size_first(fs: Seq<ObjectMotionSiFrame<Seq<u8>>>)
    requires
        fs.len() > 0,
    ensures
        frames_size(fs) == frame_size(fs[0]) + frames_size(fs.drop_first()),
    decreases fs.len(),
{
    if fs.len() > 1 {
        lemma_frames_size_first(fs.drop_last());
        assert(fs.drop_last().drop_first() =~= fs.drop_first().drop_last());
    } else {
        assert(fs.drop_first() =~= Seq::<ObjectMotionSiFrame<Seq<u8>>>::empty());
        assert(fs.drop_last() =~= Seq::<ObjectMotionSiFrame<Seq<u8>>>::empty());
    }
}

/// The bytes of frames have the frames' size.
pub proof fn lemma_frames_len(fs: Seq<ObjectMotionSiFrame<Seq<u8>>>)
    ensures
        serialize_frames(fs).len() == frames_size(fs),
    decreases fs.len(),
{
    if fs.len() > 0 {
        lemma_frames_len(fs.drop_first());
        lemma_frame_len(fs[0]);
        lemma_frames_size_first(fs);
    }
}

fn read_block(data: &[u8], pos: usize) -> (r: Vec<Fld>)
    requires
        pos + BLOCK_SIZE <= data@.len(),
    ensures
        fields_view(r@) == block_at(data@, pos as int).unwrap(),
        r@.len() == 7,
        forall|k: int| 0 <= k < 7 ==> (#[trigger] fields_view(r@)[k]) is U32,
{
    let l = block_layout_exec();
    let b = slice_subrange(data, pos, data.len());
    let f = decode_record(b, l.as_slice());
    proof {
        lemma_decode_prefix_bytes(block_layout(), b@);
        assert(b@.take(28) =~= data@.subrange(pos as int, pos + 28));
        assert forall|k: int| 0 <= k < 7 implies conforms(
            #[trigger] fields_view(f@)[k],
            block_layout()[k],
        ) by {}
    }
    f
}

fn read_translate(data: &[u8], pos: usize) -> (r: TranslateData<Vec<u8>>)
    requires
        pos + BLOCK_SIZE <= data@.len(),
    ensures
        ({
            let t = translate_of(block_at(data@, pos as int).unwrap());
            &&& r.base == t.base && r.delta == t.delta && r.garbage == t.garbage
            &&& r.spline_x@ == t.spline_x && r.spline_y@ == t.spline_y && r.spline_z@ == t.spline_z
        }),
{
    let f = read_block(data, pos);
    TranslateData {
        base: Vec3 { x: get_u32(&f, 0), y: get_u32(&f, 1), z: get_u32(&f, 2) },
        garbage: get_u32(&f, 3),
        delta: Vec3 { x: get_u32(&f, 4), y: get_u32(&f, 5), z: get_u32(&f, 6) },
        spline_x: Vec::new(),
        spline_y: Vec::new(),
        spline_z: Vec::new(),
    }
}

fn read_rotate(data: &[u8], pos: usize) -> (r: RotateData<Vec<u8>>)
    requires
        pos + BLOCK_SIZE <= data@.len(),
    ensures
        ({
            let t = rotate_of(block_at(data@, pos as int).unwrap());
            &&& r.base == t.base && r.delta == t.delta
            &&& r.spline_x@ == t.spline_x && r.spline_y@ == t.spline_y && r.spline_z@ == t.spline_z
        }),
{
    let f = read_block(data, pos);
    RotateData {
        base: Quaternion {
            x: get_u32(&f, 0),
            y: get_u32(&f, 1),
            z: get_u32(&f, 2),
            w: get_u32(&f, 3),
        },
        delta: Vec3 { x: get_u32(&f, 4), y: get_u32(&f, 5), z: get_u32(&f, 6) },
        spline_x: Vec::new(),
        spline_y: Vec::new(),
        spline_z: Vec::new(),
    }
}

fn read_scale(data: &[u8], pos: usize) -> (r: ScaleData<Vec<u8>>)
    requires
        pos + BLOCK_SIZE <= data@.len(),
    ensures
        ({
            let t = scale_of(block_at(data@, pos as int).unwrap());
            &&& r.base == t.base && r.delta == t.delta && r.garbage == t.garbage
            &&& r.spline_x@ == t.spline_x && r.spline_y@ == t.spline_y && r.spline_z@ == t.spline_z
        }),
{
    let f = read_block(data, pos);
    ScaleData {
        base: Vec3 { x: get_u32(&f, 0), y: get_u32(&f, 1), z: get_u32(&f, 2) },
        garbage: get_u32(&f, 3),
        delta: Vec3 { x: get_u32(&f, 4), y: get_u32(&f, 5), z: get_u32(&f, 6) },
        spline_x: Vec::new(),
        spline_y: Vec::new(),
        spline_z: Vec::new(),
    }
}

/// Reads the Recoil frame at the front of `data`, and its size.
pub fn read_frame(data: &[u8]) -> (r: Result<(ObjectMotionSiFrame<Vec<u8>>, usize), Error>)
    ensures
        match parse_frame(data@) {
            Some(p) => r matches Ok(x) && x.0.deep_view() == p.0 && x.1 == p.1,
            None => r == Err::<(ObjectMotionSiFrame<Vec<u8>>, usize), Error>(Error::Invalid),
        },
{
    if data.len() < 12 {
        return Err(Error::Invalid);
    }
    let l = frame_layout_exec();
    let h = decode_record(data, l.as_slice());
    proof {
        assert forall|k: int| 0 <= k < 3 implies conforms(
            #[trigger] fields_view(h@)[k],
            frame_layout()[k],
        ) by {}
    }
    let fl = get_u32(&h, 0);
    let start_time = get_u32(&h, 1);
    let end_time = get_u32(&h, 2);
    let has_t = bit_exec(fl, TRANSLATE);
    let has_r = bit_exec(fl, ROTATE);
    let has_s = bit_exec(fl, SCALE);
    let p1: usize = 12;
    let p2: usize = if has_t { p1 + 28 } else { p1 };
    let p3: usize = if has_r { p2 + 28 } else { p2 };
    let end: usize = if has_s { p3 + 28 } else { p3 };
    if fl >= 8 || end > data.len() {
        return Err(Error::Invalid);
    }
    let translate = if has_t {
        Some(read_translate(data, p1))
    } else {
        None
    };
    let rotate = if has_r {
        Some(read_rotate(data, p2))
    } else {
        None
    };
    let scale = if has_s {
        Some(read_scale(data, p3))
    } else {
        None
    };
    Ok((ObjectMotionSiFrame { start_time, end_time, translate, rotate, scale }, end))
}

/// `parse_frames` takes one frame off the front.
proof fn lemma_frames_step(s: Seq<u8>, pos: int, count: nat)
    requires
        0 <= pos <= s.len(),
        count > 0,
    ensures
        parse_frames(s.subrange(pos, s.len() as int), count) == (match parse_frame(
            s.subrange(pos, s.len() as int),
        ) {
            None => None,
            Some(p) => match parse_frames(s.subrange(pos + p.1, s.len() as int), (count - 1) as nat) {
                None => None,
                Some(rest) => Some(seq![p.0] + rest),
            },
        }),
{
    let t = s.subrange(pos, s.len() as int);
    if let Some(p) = parse_frame(t) {
        assert(t.subrange(p.1, t.len() as int) =~= s.subrange(pos + p.1, s.len() as int));
    }
}

/// Reads `count` Recoil frames that fill `data`.
pub fn read_si_script_frames(data: &[u8], count: u32) -> (r: Result<
    Vec<ObjectMotionSiFrame<Vec<u8>>>,
    Error,
>)
    ensures
        match parse_frames(data@, count as nat) {
            Some(fs) => r matches Ok(x) && x.deep_view() == fs,
            None => r == Err::<Vec<ObjectMotionSiFrame<Vec<u8>>>, Error>(Error::Invalid),
        },
{
    let mut frames: Vec<ObjectMotionSiFrame<Vec<u8>>> = Vec::new();
    let mut pos: usize = 0;
    let mut i: u32 = 0;
    let len = data.len();
    proof {
        assert(data@.subrange(0, len as int) =~= data@);
        if let Some(fs) = parse_frames(data@, count as nat) {
            assert(frames.deep_view() + fs =~= fs);
        }
    }
    while i < count
        invariant
            len == data@.len(),
            pos <= len,
            i <= count,
            parse_frames(data@, count as nat) == (match parse_frames(
                data@.subrange(pos as int, len as int),
                (count - i) as nat,
            ) {
                Some(rest) => Some(frames.deep_view() + rest),
                None => None,
            }),
        decreases count - i,
    {
        proof {
            lemma_frames_step(data@, pos as int, (count - i) as nat);
        }
        let rest = slice_subrange(data, pos, len);
        let (fr, n) = read_frame(rest)?;
        let ghost before = frames.deep_view();
        let ghost frv = fr.deep_view();
        frames.push(fr);
        proof {
            assert(frames.deep_view() =~= before + seq![frv]);
            if let Some(t) = parse_frames(
                data@.subrange(pos + n, len as int),
                (count - i - 1) as nat,
            ) {
                assert(before + (seq![frv] + t) =~= frames.deep_view() + t);
            }
        }
        pos = pos + n;
        i = i + 1;
    }
    if pos != len {
        return Err(Error::Invalid);
    }
    proof {
        assert(data@.subrange(pos as int, len as int) =~= Seq::<u8>::empty());
        assert(frames.deep_view() + Seq::<ObjectMotionSiFrame<Seq<u8>>>::empty()
            =~= frames.deep_view());
    }
    Ok(frames)
}

fn write_block(v: [u32; 7], out: &mut Vec<u8>)
    ensures
        final(out)@ == old(out)@ + encode(block_fields(v@)),
{
    let fs = vec![
        Fld::U32(v[0]),
        Fld::U32(v[1]),
        Fld::U32(v[2]),
        Fld::U32(v[3]),
        Fld::U32(v[4]),
        Fld::U32(v[5]),
        Fld::U32(v[6]),
    ];
    proof {
        assert(fields_view(fs@) =~= block_fields(v@));
    }
    encode_record(&fs, out);
}

/// Writes a Recoil frame; its splines are not written.
pub fn write_frame(fr: &ObjectMotionSiFrame<Vec<u8>>, out: &mut Vec<u8>)
    ensures
        final(out)@ == old(out)@ + serialize_frame(fr.deep_view()),
{
    let fl = (if fr.translate.is_some() {
        1u32
    } else {
        0u32
    }) | (if fr.rotate.is_some() {
        2u32
    } else {
        0u32
    }) | (if fr.scale.is_some() {
        4u32
    } else {
        0u32
    });
    let hf = vec![Fld::U32(fl), Fld::U32(fr.start_time), Fld::U32(fr.end_time)];
    let ghost o = out@;
    proof {
        assert(fields_view(hf@) =~= seq![
            FieldV::U32(frame_flags(fr.translate is Some, fr.rotate is Some, fr.scale is Some)),
            FieldV::U32(fr.start_time),
            FieldV::U32(fr.end_time),
        ]);
    }
    encode_record(&hf, out);
    let ghost o1 = out@;
    match &fr.translate {
        Some(t) => {
            let v = [t.base.x, t.base.y, t.base.z, t.garbage, t.delta.x, t.delta.y, t.delta.z];
            assert(v@ =~= seq![
                t.base.x,
                t.base.y,
                t.base.z,
                t.garbage,
                t.delta.x,
                t.delta.y,
                t.delta.z,
            ]);
            write_block(v, out);
        },
        None => {},
    }
    let ghost o2 = out@;
    match &fr.rotate {
        Some(t) => {
            let v = [t.base.x, t.base.y, t.base.z, t.base.w, t.delta.x, t.delta.y, t.delta.z];
            assert(v@ =~= seq![
                t.base.x,
                t.base.y,
                t.base.z,
                t.base.w,
                t.delta.x,
                t.delta.y,
                t.delta.z,
            ]);
            write_block(v, out);
        },
        None => {},
    }
    let ghost o3 = out@;
    match &fr.scale {
        Some(t) => {
            let v = [t.base.x, t.base.y, t.base.z, t.garbage, t.delta.x, t.delta.y, t.delta.z];
            assert(v@ =~= seq![
                t.base.x,
                t.base.y,
                t.base.z,
                t.garbage,
                t.delta.x,
                t.delta.y,
                t.delta.z,
            ]);
            write_block(v, out);
        },
        None => {},
    }
    proof {
        let b = frame_blocks(fr.deep_view());
        assert(o2 =~= o1 + b.0);
        assert(o3 =~= o2 + b.1);
        assert(out@ =~= o3 + b.2);
        assert(out@ =~= o + serialize_frame(fr.deep_view()));
    }
}

/// Writes Recoil frames, one after the other.
pub fn write_si_script_frames(frames: &Vec<ObjectMotionSiFrame<Vec<u8>>>, out: &mut Vec<u8>)
    ensures
        final(out)@ == old(out)@ + serialize_frames(frames.deep_view()),
{
    let ghost fs = frames.deep_view();
    let ghost o = out@;
    let mut i: usize = 0;
    proof {
        assert(fs.subrange(0, fs.len() as int) =~= fs);
        assert(o + serialize_frames(fs) =~= out@ + serialize_frames(fs));
    }
    while i < frames.len()
        invariant
            fs == frames.deep_view(),
            i <= frames.len(),
            o + serialize_frames(fs) == out@ + serialize_frames(fs.subrange(i as int, fs.len() as int)),
        decreases frames.len() - i,
    {
        proof {
            let t = fs.subrange(i as int, fs.len() as int);
            assert(t.drop_first() =~= fs.subrange(i + 1, fs.len() as int));
            assert(t[0] == fs[i as int]);
        }
        let ghost b0 = out@;
        write_frame(&frames[i], out);
        proof {
            let a = serialize_frame(fs[i as int]);
            let rest = serialize_frames(fs.subrange(i + 1, fs.len() as int));
            assert(b0 + (a + rest) =~= out@ + rest);
        }
        i = i + 1;
    }
    proof {
        assert(fs.subrange(i as int, fs.len() as int)
            =~= Seq::<ObjectMotionSiFrame<Seq<u8>>>::empty());
        assert(out@ + Seq::<u8>::empty() =~= out@);
    }
}

/// The size of a frame's prefix is at most the size of all of them.
proof fn lemma_frames_size_prefix(fs: Seq<ObjectMotionSiFrame<Seq<u8>>>, i: int)
    requires
        0 <= i <= fs.len(),
    ensures
        frames_size(fs.take(i)) <= frames_size(fs),
    decreases fs.len() - i,
{
    if i < fs.len() {
        lemma_frames_size_prefix(fs, i + 1);
        assert(fs.take(i + 1).drop_last() =~= fs.take(i));
    } else {
        assert(fs.take(i) =~= fs);
    }
}

/// The size of Recoil frames, if it fits in a `u32`.
pub fn size_si_script_frames(frames: &Vec<ObjectMotionSiFrame<Vec<u8>>>) -> (r: Option<u32>)
    ensures
        r == (if frames_size(frames.deep_view()) <= u32::MAX {
            Some(frames_size(frames.deep_view()) as u32)
        } else {
            None
        }),
{
    let ghost fs = frames.deep_view();
    let mut total: u32 = 0;
    let mut i: usize = 0;
    proof {
        assert(fs.take(0) =~= Seq::<ObjectMotionSiFrame<Seq<u8>>>::empty());
    }
    while i < frames.len()
        invariant
            fs == frames.deep_view(),
            i <= frames.len(),
            total == frames_size(fs.take(i as int)),
        decreases frames.len() - i,
    {
        let fr = &frames[i];
        proof {
            assert(fs.take(i + 1).drop_last() =~= fs.take(i as int));
            assert(fs.take(i + 1).last() == fs[i as int]);
            lemma_frames_size_prefix(fs, i + 1);
        }
        let n: u32 = 12 + (if fr.translate.is_some() {
            28u32
        } else {
            0u32
        }) + (if fr.rotate.is_some() {
            28u32
        } else {
            0u32
        }) + (if fr.scale.is_some() {
            28u32
        } else {
            0u32
        });
        total = match total.checked_add(n) {
            Some(x) => x,
            None => return None,
        };
        i = i + 1;
    }
    proof {
        assert(fs.take(i as int) =~= fs);
    }
    Some(total)
}

/// Fields of the header: node index (four bytes), frame count, script
/// time, script position, frame index.
pub open spec fn layout() -> Seq<Kind> {
    seq![Kind::U32, Kind::U32, Kind::U32, Kind::U32, Kind::U32]
}

fn layout_exec() -> (r: Vec<Kind>)
    ensures
        r@ == layout(),
        size(layout()) == HEADER,
{
    let r = vec![Kind::U32, Kind::U32, Kind::U32, Kind::U32, Kind::U32];
    proof {
        assert(r@ =~= layout());
        reveal_with_fuel(size, 6);
    }
    r
}

/// The size of the Recoil record of an event.
pub open spec fn data_size(v: ObjectMotionSiScriptV) -> nat {
    HEADER as nat + frames_size(v.frames)
}

/// The event that a Recoil record holds, if it holds one: a node, zero
/// values the game fills in, and as many frames as the count says, filling
/// the rest.
pub open spec fn parse(ad: AnimDefV, s: Seq<u8>) -> Option<ObjectMotionSiScriptV> {
    if s.len() < HEADER {
        None
    } else {
        let f = decode(layout(), s);
        if !float::is_zero(w32(f, 2)) || w32(f, 3) != 0 || w32(f, 4) != 0 {
            None
        } else {
            match (
                name_at(ad.nodes, w32(f, 0) as int),
                parse_frames(s.subrange(HEADER as int, s.len() as int), w32(f, 1) as nat),
            ) {
                (Some(name), Some(frames)) => Some(ObjectMotionSiScriptV { name, frames }),
                _ => None,
            }
        }
    }
}

/// The header fields of an event.
pub open spec fn header_fields(ni: int, count: int) -> Seq<FieldV> {
    seq![
        FieldV::U32(ni as u32),
        FieldV::U32(count as u32),
        FieldV::U32(0),
        FieldV::U32(0),
        FieldV::U32(0),
    ]
}

/// The Recoil record of an event, if it can be written: its node is known
/// and its frames can be counted in a `u32`.
pub open spec fn serialize(ad: AnimDefV, v: ObjectMotionSiScriptV) -> Option<Seq<u8>> {
    if v.frames.len() > u32::MAX {
        None
    } else {
        match index_of(ad.nodes, v.name) {
            Some(ni) => Some(encode(header_fields(ni, v.frames.len() as int)) + serialize_frames(
                v.frames,
            )),
            None => None,
        }
    }
}

/// The size of the Recoil record of an event, if it fits in a `u32`.
pub fn size_of(v: &ObjectMotionSiScript) -> (r: Option<u32>)
    ensures
        r == (if data_size(v.deep_view()) <= u32::MAX {
            Some(data_size(v.deep_view()) as u32)
        } else {
            None
        }),
{
    match size_si_script_frames(&v.frames) {
        Some(n) => n.checked_add(20),
        None => None,
    }
}

/// Reads a Recoil `OBJECT_MOTION_SI_SCRIPT` record.
pub fn read(data: &[u8], ad: &AnimDef) -> (r: Result<ObjectMotionSiScript, Error>)
    ensures
        match parse(ad@, data@) {
            Some(v) => r matches Ok(x) && x.deep_view() == v,
            None => r == Err::<ObjectMotionSiScript, Error>(Error::Invalid),
        },
{
    if data.len() < 20 {
        return Err(Error::Invalid);
    }
    let l = layout_exec();
    let f = decode_record(data, l.as_slice());
    let ni = get_u32(&f, 0);
    let count = get_u32(&f, 1);
    if !float::f32_is_zero(get_u32(&f, 2)) || get_u32(&f, 3) != 0 || get_u32(&f, 4) != 0 {
        return Err(Error::Invalid);
    }
    let name = ad.node_from_index(ni)?;
    let rest = slice_subrange(data, 20, data.len());
    let frames = read_si_script_frames(rest, count)?;
    Ok(ObjectMotionSiScript { name, frames })
}

/// Writes a Recoil `OBJECT_MOTION_SI_SCRIPT` record.
pub fn write(v: &ObjectMotionSiScript, ad: &AnimDef, out: &mut Vec<u8>) -> (r: Result<(), Error>)
    ensures
        match serialize(ad@, v.deep_view()) {
            Some(b) => r is Ok && final(out)@ == old(out)@ + b,
            None => r == Err::<(), Error>(Error::Invalid) && final(out)@ == old(out)@,
        },
{
    if v.frames.len() > 0xFFFF_FFFF {
        return Err(Error::Invalid);
    }
    let ni = ad.node_to_index(&v.name)?;
    let mut buf: Vec<u8> = Vec::new();
    let fs = vec![
        Fld::U32(ni as u32),
        Fld::U32(v.frames.len() as u32),
        Fld::U32(0),
        Fld::U32(0),
        Fld::U32(0),
    ];
    proof {
        assert(fields_view(fs@) =~= header_fields(
            index_of(ad@.nodes, v.name@).unwrap(),
            v.frames@.len() as int,
        ));
    }
    encode_record(&fs, &mut buf);
    write_si_script_frames(&v.frames, &mut buf);
    proof {
        assert(buf@ =~= Seq::<u8>::empty() + encode(
            header_fields(index_of(ad@.nodes, v.name@).unwrap(), v.frames@.len() as int),
        ) + serialize_frames(v.frames.deep_view()));
    }
    append_bytes(out, &buf);
    Ok(())
}

/// Writing a Recoil event that was read, then reading it again, gives the
/// same event, in a record of the event's size.
pub proof fn lemma_reread(ad: AnimDefV, s: Seq<u8>)
    requires
        parse(ad, s) is Some,
    ensures
        serialize(ad, parse(ad, s).unwrap()) matches Some(b) && b.len() == data_size(
            parse(ad, s).unwrap(),
        ) && parse(ad, b) == parse(ad, s),
        s.len() == data_size(parse(ad, s).unwrap()),
{
    let f = decode(layout(), s);
    let v = parse(ad, s).unwrap();
    let rest = s.subrange(HEADER as int, s.len() as int);
    reveal_with_fuel(size, 6);
    lemma_name_reread(ad.nodes, w32(f, 0) as int);
    lemma_frames_bytes(rest, w32(f, 1) as nat);
    lemma_frames_len(v.frames);
    let ni = index_of(ad.nodes, v.name).unwrap();
    let g = header_fields(ni, v.frames.len() as int);
    assert(conforms_all(g, layout()));
    lemma_decode_encode(g, layout());
    lemma_encode_size(g, layout());
    let h = encode(g);
    let b = h + rest;
    lemma_decode_prefix_bytes(layout(), b);
    assert(b.take(20) =~= h);
    assert(b.subrange(20, b.len() as int) =~= rest);
}

/// The Recoil record is written back exactly as read: its script time is
/// not `-0.0`.
pub open spec fn exact_record(ad: AnimDefV, s: Seq<u8>) -> bool {
    w32(decode(layout(), s), 2) != float::NEG_ZERO
}

/// Writing the event of a Recoil record gives the record back, where the nodes
/// of the definition are distinct and the record is written back
/// exactly.
pub proof fn lemma_exact(ad: AnimDefV, s: Seq<u8>)
    requires
        parse(ad, s) is Some,
        crate::anim_def::unique_names(ad.nodes),
        exact_record(ad, s),
    ensures
        serialize(ad, parse(ad, s).unwrap()) == Some(s),
{
    let f = decode(layout(), s);
    let v = parse(ad, s).unwrap();
    let rest = s.subrange(HEADER as int, s.len() as int);
    reveal_with_fuel(size, 6);
    lemma_index_of_name_at(ad.nodes, w32(f, 0) as int);
    lemma_frames_bytes(rest, w32(f, 1) as nat);
    let h = s.take(20);
    lemma_decode_prefix_bytes(layout(), s);
    crate::record::lemma_decode_conforms(layout(), h);
    crate::record::lemma_encode_decode(layout(), h);
    crate::record::lemma_conforming_fields(f, layout());
    assert(header_fields(w32(f, 0) as int, v.frames.len() as int) =~= f);
    assert(h + rest =~= s);
}


/// A block at `pos` holds the numbers of `s` there: its seven values are
/// the little-endian numbers at `pos`, `pos + 4`, ..., `pos + 24`.
proof fn lemma_block_numbers(s: Seq<u8>, pos: int)
    requires
        block_at(s, pos) is Some,
    ensures
        forall|i: int|
            0 <= i < 7 ==> #[trigger] w32(block_at(s, pos).unwrap(), i) == crate::record::le32_at(
                s,
                pos + 4 * i,
            ),
{
    let b = s.subrange(pos, pos + BLOCK_SIZE);
    assert(block_layout() =~= Seq::new(7, |k: int| Kind::U32));
    crate::record::lemma_u32_size(7);
    assert forall|i: int| 0 <= i < 7 implies #[trigger] w32(block_at(s, pos).unwrap(), i)
        == crate::record::le32_at(s, pos + 4 * i) by {
        crate::record::lemma_u32_offset(7, i);
        crate::record::lemma_numbers_at(block_layout(), b, i);
        assert(b.subrange(4 * i, 4 * i + 4) =~= s.subrange(pos + 4 * i, pos + 4 * i + 4));
    }
}

/// The seven values of a block at `pos` are the little-endian numbers of
/// `s` there: a vector, a fourth value and a vector.
pub open spec fn block_holds(s: Seq<u8>, pos: int, a: Vec3, g: u32, d: Vec3) -> bool {
    &&& a == Vec3 {
        x: crate::record::le32_at(s, pos),
        y: crate::record::le32_at(s, pos + 4),
        z: crate::record::le32_at(s, pos + 8),
    }
    &&& g == crate::record::le32_at(s, pos + 12)
    &&& d == Vec3 {
        x: crate::record::le32_at(s, pos + 16),
        y: crate::record::le32_at(s, pos + 20),
        z: crate::record::le32_at(s, pos + 24),
    }
}

/// A frame read from the front of `s` holds the numbers there,
/// little-endian: the flag word at offset 0, the start and end times at
/// offsets 4 and 8; then, for each of translation, rotation and scale in
/// that order, present exactly where its bit (`TRANSLATE`, `ROTATE`,
/// `SCALE`) is set, a block of 28 bytes of seven values (a vector, a fourth
/// value, a vector; for a rotation, a quaternion and a vector), with empty
/// splines. The frame takes the header and its blocks.
pub proof fn lemma_frame_read_bytes(s: Seq<u8>)
    requires
        parse_frame(s) is Some,
    ensures
        ({
            let (fr, n) = parse_frame(s).unwrap();
            let fl = crate::record::le32_at(s, 0);
            let p2 = if fr.translate is Some { 40int } else { 12int };
            let p3 = if fr.rotate is Some { p2 + 28 } else { p2 };
            &&& fr.start_time == crate::record::le32_at(s, 4)
            &&& fr.end_time == crate::record::le32_at(s, 8)
            &&& (fr.translate is Some) == bit(fl, TRANSLATE)
            &&& (fr.rotate is Some) == bit(fl, ROTATE)
            &&& (fr.scale is Some) == bit(fl, SCALE)
            &&& n == (if fr.scale is Some { p3 + 28 } else { p3 })
            &&& fr.translate matches Some(t) ==> block_holds(s, 12, t.base, t.garbage, t.delta)
                && t.spline_x.len() == 0 && t.spline_y.len() == 0 && t.spline_z.len() == 0
            &&& fr.rotate matches Some(r) ==> block_holds(
                s,
                p2,
                Vec3 { x: r.base.x, y: r.base.y, z: r.base.z },
                r.base.w,
                r.delta,
            ) && r.spline_x.len() == 0 && r.spline_y.len() == 0 && r.spline_z.len() == 0
            &&& fr.scale matches Some(c) ==> block_holds(s, p3, c.base, c.garbage, c.delta)
                && c.spline_x.len() == 0 && c.spline_y.len() == 0 && c.spline_z.len() == 0
        }),
{
    let h = decode(frame_layout(), s);
    let fl = w32(h, 0);
    reveal_with_fuel(size, 4);
    assert(frame_layout().take(0) =~= Seq::<Kind>::empty());
    assert(frame_layout().take(1) =~= seq![Kind::U32]);
    assert(frame_layout().take(2) =~= seq![Kind::U32, Kind::U32]);
    crate::record::lemma_numbers_at(frame_layout(), s, 0);
    crate::record::lemma_numbers_at(frame_layout(), s, 1);
    crate::record::lemma_numbers_at(frame_layout(), s, 2);
    let p1 = FRAME_SIZE as int;
    let p2 = if bit(fl, TRANSLATE) { p1 + BLOCK_SIZE } else { p1 };
    let p3 = if bit(fl, ROTATE) { p2 + BLOCK_SIZE } else { p2 };
    if bit(fl, TRANSLATE) {
        lemma_block_numbers(s, p1);
        let f = block_at(s, p1).unwrap();
        assert(w32(f, 0) == crate::record::le32_at(s, p1));
        assert(w32(f, 1) == crate::record::le32_at(s, p1 + 4));
        assert(w32(f, 2) == crate::record::le32_at(s, p1 + 8));
        assert(w32(f, 3) == crate::record::le32_at(s, p1 + 12));
        assert(w32(f, 4) == crate::record::le32_at(s, p1 + 16));
        assert(w32(f, 5) == crate::record::le32_at(s, p1 + 20));
        assert(w32(f, 6) == crate::record::le32_at(s, p1 + 24));
    }
    if bit(fl, ROTATE) {
        lemma_block_numbers(s, p2);
        let f = block_at(s, p2).unwrap();
        assert(w32(f, 0) == crate::record::le32_at(s, p2));
        assert(w32(f, 1) == crate::record::le32_at(s, p2 + 4));
        assert(w32(f, 2) == crate::record::le32_at(s, p2 + 8));
        assert(w32(f, 3) == crate::record::le32_at(s, p2 + 12));
        assert(w32(f, 4) == crate::record::le32_at(s, p2 + 16));
        assert(w32(f, 5) == crate::record::le32_at(s, p2 + 20));
        assert(w32(f, 6) == crate::record::le32_at(s, p2 + 24));
    }
    if bit(fl, SCALE) {
        lemma_block_numbers(s, p3);
        let f = block_at(s, p3).unwrap();
        assert(w32(f, 0) == crate::record::le32_at(s, p3));
        assert(w32(f, 1) == crate::record::le32_at(s, p3 + 4));
        assert(w32(f, 2) == crate::record::le32_at(s, p3 + 8));
        assert(w32(f, 3) == crate::record::le32_at(s, p3 + 12));
        assert(w32(f, 4) == crate::record::le32_at(s, p3 + 16));
        assert(w32(f, 5) == crate::record::le32_at(s, p3 + 20));
        assert(w32(f, 6) == crate::record::le32_at(s, p3 + 24));
    }
}

/// An event read from a Recoil record has the node that the four-byte
/// number at offset 0 refers to, and as many frames as the number at
/// offset 4 says, read from the bytes after the 20-byte header.
pub proof fn lemma_header_read(ad: AnimDefV, s: Seq<u8>)
    requires
        parse(ad, s) is Some,
    ensures
        name_at(ad.nodes, crate::record::le32_at(s, 0) as int) == Some(parse(ad, s).unwrap().name),
        parse_frames(s.subrange(20, s.len() as int), crate::record::le32_at(s, 4) as nat) == Some(
            parse(ad, s).unwrap().frames,
        ),
        parse(ad, s).unwrap().frames.len() == crate::record::le32_at(s, 4),
{
    reveal_with_fuel(size, 6);
    assert(layout().take(0) =~= Seq::<Kind>::empty());
    assert(layout().take(1) =~= seq![Kind::U32]);
    crate::record::lemma_numbers_at(layout(), s, 0);
    crate::record::lemma_numbers_at(layout(), s, 1);
    lemma_frames_bytes(s.subrange(20, s.len() as int), crate::record::le32_at(s, 4) as nat);
}

} // verus!
