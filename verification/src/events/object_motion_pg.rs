//! `OBJECT_MOTION` (10) as Recoil stores it (Pirate's Moon stores the
//! MechWarrior 3 record): a record of 240 bytes with one bounce sequence and one bounce sound,
//! and no gravity that ignores altitude.
//!
//! Up to the scaling the record has the fields of the MechWarrior 3 record,
//! and the parts there are read alike.
use vstd::prelude::*;
use crate::anim_def::{index_of, lemma_index_of_name_at, lemma_name_reread, name_at, AnimDef, AnimDefV};
use crate::error::Error;
use crate::events::object_motion::{
    forward_part, lemma_word, lemma_word_rebuild, or_zero, range_at, range_part, run_time_part, scale_part, translation_part,
    value_of, vec_at, word, word_exec, xyz_part, BounceSequences, BounceSound, BounceSounds,
    ForwardRotation, Gravity, ObjectMotion, ObjectMotionScale, ObjectMotionTranslation,
    ObjectMotionXyzRot, TranslationRange, BOUNCE_SEQUENCE, BOUNCE_SOUND, FORWARD_ROTATION_DISTANCE,
    FORWARD_ROTATION_TIME, GRAVITY, GRAVITY_COMPLEX, GRAVITY_NO_ALTITUDE, IMPACT_FORCE, MORPH,
    RUN_TIME, SCALE, TRANSLATION, TRANSLATION_RANGE_MAX, TRANSLATION_RANGE_MIN, XYZ_ROTATION,
};
use crate::flags::{bit, bit_exec};
use crate::float;
use crate::model::{range_is_zero_exec, range_no_neg_zero, vec3_is_zero, vec3_is_zero_exec, vec3_no_neg_zero, Range, Vec3};
use crate::record::{
    conforms, conforms_all, decode, decode_record, encode, encode_record, fields_view, get_bytes,
    get_u16, get_u32, lemma_conforming_fields, lemma_decode_conforms, lemma_decode_encode,
    lemma_encode_decode, lemma_encode_size,
    lemma_size_append, lemma_u32_size, size, w16, w32, wbytes, FieldV, Fld, Kind,
};
use crate::text::{
    all_zero, all_zero_exec, lemma_pad_unpad, lemma_unpad_pad, pad, pad_exec, unpad, unpad_exec,
    zeros, zeros_exec,
};

verus! {

/// Size of the record.
pub const SIZE: u32 = 240;

/// The stored index of a bounce sequence that is called by name.
pub const BY_NAME: u16 = 0xFFFF;

/// Fields: flags, node index, padding, then as the MechWarrior 3 record up
/// to the scaling, then the bounce sequence's name and index, the bounce
/// sound's index and volume, and the run time.
pub open spec fn layout() -> Seq<Kind> {
    seq![Kind::U32, Kind::U16, Kind::U16] + Seq::new(47, |i: int| Kind::U32) + seq![
        Kind::Bytes(32),
        Kind::U16,
        Kind::U16,
        Kind::U32,
        Kind::U32,
    ]
}

/// The record has the size of its layout.
proof fn lemma_layout_size()
    ensures
        size(layout()) == SIZE,
        layout().len() == 55,
{
    let a = seq![Kind::U32, Kind::U16, Kind::U16];
    let b = Seq::new(47, |i: int| Kind::U32);
    let c = seq![Kind::Bytes(32), Kind::U16, Kind::U16, Kind::U32, Kind::U32];
    lemma_u32_size(47);
    lemma_size_append(a, b);
    lemma_size_append(a + b, c);
    assert(size(a) == 8) by {
        reveal_with_fuel(size, 4);
    }
    assert(size(c) == 44) by {
        reveal_with_fuel(size, 6);
    }
}

fn layout_exec() -> (r: Vec<Kind>)
    ensures
        r@ == layout(),
{
    let mut r = vec![Kind::U32, Kind::U16, Kind::U16];
    let mut i: usize = 0;
    while i < 47
        invariant
            i <= 47,
            r@ == seq![Kind::U32, Kind::U16, Kind::U16] + Seq::new(i as nat, |k: int| Kind::U32),
        decreases 47 - i,
    {
        r.push(Kind::U32);
        i = i + 1;
        proof {
            assert(r@ =~= seq![Kind::U32, Kind::U16, Kind::U16] + Seq::new(
                i as nat,
                |k: int| Kind::U32,
            ));
        }
    }
    r.push(Kind::Bytes(32));
    r.push(Kind::U16);
    r.push(Kind::U16);
    r.push(Kind::U32);
    r.push(Kind::U32);
    proof {
        assert(r@ =~= layout());
    }
    r
}

/// The translation range is marked by both its flags.
pub open spec fn range_marked(fl: u32) -> bool {
    bit(fl, TRANSLATION_RANGE_MIN) && bit(fl, TRANSLATION_RANGE_MAX)
}

/// The checks that involve no part alone: only the known flags; no gravity
/// that ignores altitude; no complex gravity without gravity; both range
/// flags or neither; zero padding and zero current values.
pub open spec fn header_ok(f: Seq<FieldV>) -> bool {
    let fl = w32(f, 0);
    &&& fl < 32768
    &&& !bit(fl, GRAVITY_NO_ALTITUDE)
    &&& !bit(fl, GRAVITY) ==> !bit(fl, GRAVITY_COMPLEX)
    &&& !range_marked(fl) ==> !bit(fl, TRANSLATION_RANGE_MIN) && !bit(fl, TRANSLATION_RANGE_MAX)
    &&& w16(f, 2) == 0
    &&& float::is_zero(w32(f, 3))
    &&& vec3_is_zero(vec_at(f, 20))
    &&& vec3_is_zero(vec_at(f, 23))
    &&& float::is_zero(w32(f, 31))
    &&& vec3_is_zero(vec_at(f, 38))
    &&& vec3_is_zero(vec_at(f, 47))
}

/// The bounce sequence of the fields: where set, a name called by name;
/// otherwise a name field of zeros and a zero index.
pub open spec fn sequence_part(set: bool, f: Seq<FieldV>) -> Option<
    Option<BounceSequences<Seq<u8>>>,
> {
    if set {
        match unpad(wbytes(f, 50)) {
            Some(n) => if w16(f, 51) == BY_NAME {
                Some(Some(BounceSequences { default: Some(n), water: None, lava: None }))
            } else {
                None
            },
            None => None,
        }
    } else if all_zero(wbytes(f, 50)) && w16(f, 51) == 0 {
        Some(None)
    } else {
        None
    }
}

/// The bounce sound of the fields: where set, a static sound and its
/// volume; otherwise a zero index and volume.
pub open spec fn sound_part(ad: AnimDefV, set: bool, f: Seq<FieldV>) -> Option<
    Option<BounceSounds<Seq<u8>>>,
> {
    if set {
        match name_at(ad.static_sounds, w16(f, 52) as int) {
            Some(n) => Some(
                Some(
                    BounceSounds {
                        default: Some(BounceSound { name: n, volume: w32(f, 53) }),
                        water: None,
                        lava: None,
                    },
                ),
            ),
            None => None,
        }
    } else if w16(f, 52) == 0 && float::is_zero(w32(f, 53)) {
        Some(None)
    } else {
        None
    }
}

/// The event that the fields of a record describe, if they describe one.
pub open spec fn from_fields(ad: AnimDefV, f: Seq<FieldV>) -> Option<ObjectMotion<Seq<u8>>> {
    let fl = w32(f, 0);
    if !header_ok(f) {
        None
    } else {
        match (
            name_at(ad.nodes, w16(f, 1) as int),
            value_of(bit(fl, MORPH), w32(f, 5)),
            value_of(bit(fl, GRAVITY), w32(f, 4)),
            range_part(range_marked(fl), f),
            translation_part(bit(fl, TRANSLATION), f),
            forward_part(
                bit(fl, FORWARD_ROTATION_TIME),
                bit(fl, FORWARD_ROTATION_DISTANCE),
                w32(f, 29),
                w32(f, 30),
            ),
        ) {
            (
                Some(node),
                Some(morph),
                Some(gravity),
                Some(translation_range),
                Some(translation),
                Some(forward_rotation),
            ) => match (
                xyz_part(bit(fl, XYZ_ROTATION), f),
                scale_part(bit(fl, SCALE), f),
                sequence_part(bit(fl, BOUNCE_SEQUENCE), f),
                sound_part(ad, bit(fl, BOUNCE_SOUND), f),
                run_time_part(bit(fl, RUN_TIME), w32(f, 54)),
            ) {
                (
                    Some(xyz_rotation),
                    Some(scale),
                    Some(bounce_sequence),
                    Some(bounce_sound),
                    Some(run_time),
                ) => Some(
                    ObjectMotion {
                        node,
                        impact_force: bit(fl, IMPACT_FORCE),
                        morph,
                        gravity: match gravity {
                            Some(g) => Some(
                                Gravity {
                                    value: g,
                                    complex: bit(fl, GRAVITY_COMPLEX),
                                    no_altitude: false,
                                },
                            ),
                            None => None,
                        },
                        translation_range,
                        translation,
                        forward_rotation,
                        xyz_rotation,
                        scale,
                        bounce_sequence,
                        bounce_sound,
                        run_time,
                    },
                ),
                _ => None,
            },
            _ => None,
        }
    }
}

/// The flag word of an event.
pub open spec fn flags_pg(v: ObjectMotion<Seq<u8>>) -> u32 {
    word(
        v.gravity is Some,
        v.impact_force,
        v.translation is Some,
        v.translation_range is Some,
        v.translation_range is Some,
        v.xyz_rotation is Some,
        v.forward_rotation matches Some(ForwardRotation::Distance { .. }),
        v.forward_rotation matches Some(ForwardRotation::Time { .. }),
        v.scale is Some,
        v.morph is Some,
        v.run_time is Some,
        v.bounce_sequence is Some,
        v.bounce_sound is Some,
        v.gravity matches Some(g) && g.complex,
        false,
    )
}

/// The stored name and index of a bounce sequence, if it can be written:
/// only a default sequence, whose name fits its field.
pub open spec fn sequence_fields(b: Option<BounceSequences<Seq<u8>>>) -> Option<(Seq<u8>, u16)> {
    match b {
        None => Some((zeros(32), 0)),
        Some(x) => if x.water is Some || x.lava is Some {
            None
        } else {
            match x.default {
                None => Some((zeros(32), 0)),
                Some(n) => match pad(n, 32) {
                    Some(nb) => Some((nb, BY_NAME)),
                    None => None,
                },
            }
        },
    }
}

/// The stored index and volume of a bounce sound, if it can be written:
/// only a default sound, which has an index.
pub open spec fn sound_fields(ad: AnimDefV, b: Option<BounceSounds<Seq<u8>>>) -> Option<(u16, u32)> {
    match b {
        None => Some((0, 0)),
        Some(x) => if x.water is Some || x.lava is Some {
            None
        } else {
            match x.default {
                None => Some((0, 0)),
                Some(s) => match index_of(ad.static_sounds, s.name) {
                    Some(i) => Some((i as u16, s.volume)),
                    None => None,
                },
            }
        },
    }
}

/// The fields of the record of an event, if it can be written: it has no
/// gravity that ignores altitude, its node has an index, and its bounce
/// sequence and sound can be written.
pub open spec fn to_fields(ad: AnimDefV, v: ObjectMotion<Seq<u8>>) -> Option<Seq<FieldV>> {
    let zr = Range { min: 0, max: 0 };
    let zv = Vec3 { x: 0, y: 0, z: 0 };
    let tr = match v.translation_range {
        Some(t) => t,
        None => TranslationRange { xz: zr, y: zr, initial: zr, delta: zr },
    };
    let tl = match v.translation {
        Some(t) => t,
        None => ObjectMotionTranslation { initial: zv, delta: zv, rnd_xz: zv },
    };
    let fwd: (u32, u32) = match v.forward_rotation {
        Some(ForwardRotation::Time { initial, delta }) => (initial, delta),
        Some(ForwardRotation::Distance { initial }) => (initial, 0),
        None => (0, 0),
    };
    let xyz = match v.xyz_rotation {
        Some(r) => r,
        None => ObjectMotionXyzRot { initial: zv, delta: zv },
    };
    let sc = match v.scale {
        Some(r) => r,
        None => ObjectMotionScale { initial: zv, delta: zv },
    };
    let g: u32 = match v.gravity {
        Some(g) => g.value,
        None => 0,
    };
    if v.gravity matches Some(x) && x.no_altitude {
        None
    } else {
        match (
            index_of(ad.nodes, v.node),
            sequence_fields(v.bounce_sequence),
            sound_fields(ad, v.bounce_sound),
        ) {
            (Some(ni), Some(bs), Some(sn)) => Some(
                seq![
                FieldV::U32(flags_pg(v)),
                FieldV::U16(ni as u16),
                FieldV::U16(0),
                FieldV::U32(0),
                FieldV::U32(g),
                FieldV::U32(or_zero(v.morph)),
                FieldV::U32(tr.xz.min),
                FieldV::U32(tr.xz.max),
                FieldV::U32(tr.y.min),
                FieldV::U32(tr.y.max),
                FieldV::U32(tr.initial.min),
                FieldV::U32(tr.initial.max),
                FieldV::U32(tr.delta.min),
                FieldV::U32(tr.delta.max),
                FieldV::U32(tl.initial.x),
                FieldV::U32(tl.initial.y),
                FieldV::U32(tl.initial.z),
                FieldV::U32(tl.delta.x),
                FieldV::U32(tl.delta.y),
                FieldV::U32(tl.delta.z),
                FieldV::U32(0),
                FieldV::U32(0),
                FieldV::U32(0),
                FieldV::U32(0),
                FieldV::U32(0),
                FieldV::U32(0),
                FieldV::U32(tl.rnd_xz.x),
                FieldV::U32(tl.rnd_xz.y),
                FieldV::U32(tl.rnd_xz.z),
                FieldV::U32(fwd.0),
                FieldV::U32(fwd.1),
                FieldV::U32(0),
                FieldV::U32(xyz.initial.x),
                FieldV::U32(xyz.initial.y),
                FieldV::U32(xyz.initial.z),
                FieldV::U32(xyz.delta.x),
                FieldV::U32(xyz.delta.y),
                FieldV::U32(xyz.delta.z),
                FieldV::U32(0),
                FieldV::U32(0),
                FieldV::U32(0),
                FieldV::U32(sc.initial.x),
                FieldV::U32(sc.initial.y),
                FieldV::U32(sc.initial.z),
                FieldV::U32(sc.delta.x),
                FieldV::U32(sc.delta.y),
                FieldV::U32(sc.delta.z),
                FieldV::U32(0),
                FieldV::U32(0),
                FieldV::U32(0),
                FieldV::Bytes(bs.0),
                FieldV::U16(bs.1),
                FieldV::U16(sn.0),
                FieldV::U32(sn.1),
                FieldV::U32(or_zero(v.run_time)),
                ],
            ),
            _ => None,
        }
    }
}

/// The event that a record holds, if it holds one.
pub open spec fn parse(ad: AnimDefV, s: Seq<u8>) -> Option<ObjectMotion<Seq<u8>>> {
    if s.len() == SIZE {
        from_fields(ad, decode(layout(), s))
    } else {
        None
    }
}

/// The record of an event, if it can be written.
pub open spec fn serialize(ad: AnimDefV, v: ObjectMotion<Seq<u8>>) -> Option<Seq<u8>> {
    match to_fields(ad, v) {
        Some(f) => Some(encode(f)),
        None => None,
    }
}

fn vec_exec(f: &Vec<Fld>, i: usize) -> (r: Vec3)
    requires
        i + 2 < 50,
        i >= 3,
        conforms_all(fields_view(f@), layout()),
    ensures
        r == vec_at(fields_view(f@), i as int),
{
    let ghost fv = fields_view(f@);
    assert(conforms(fv[i as int], layout()[i as int]));
    assert(conforms(fv[i + 1], layout()[i + 1]));
    assert(conforms(fv[i + 2], layout()[i + 2]));
    Vec3 { x: get_u32(f, i), y: get_u32(f, i + 1), z: get_u32(f, i + 2) }
}

fn value_exec(set: bool, x: u32) -> (r: Result<Option<u32>, Error>)
    ensures
        match value_of(set, x) {
            Some(o) => r == Ok::<Option<u32>, Error>(o),
            None => r == Err::<Option<u32>, Error>(Error::Invalid),
        },
{
    if set {
        Ok(Some(x))
    } else if float::f32_is_zero(x) {
        Ok(None)
    } else {
        Err(Error::Invalid)
    }
}

/// Reads an `OBJECT_MOTION` record of the earlier games.
#[verifier::rlimit(60)]
pub fn read(data: &[u8], ad: &AnimDef) -> (r: Result<ObjectMotion<Vec<u8>>, Error>)
    ensures
        match parse(ad@, data@) {
            Some(v) => r matches Ok(x) && x.deep_view() == v,
            None => r == Err::<ObjectMotion<Vec<u8>>, Error>(Error::Invalid),
        },
{
    if data.len() != 240 {
        return Err(Error::Invalid);
    }
    proof {
        lemma_layout_size();
    }
    let l = layout_exec();
    let f = decode_record(data, l.as_slice());
    let ghost fv = fields_view(f@);
    assert forall|i: int| (0 <= i < 55 && i != 1 && i != 2 && i != 50 && i != 51 && i != 52) implies fv[i] is U32 by {
        assert(conforms(fv[i], layout()[i]));
    }
    assert(fv[1] is U16 && fv[2] is U16 && fv[51] is U16 && fv[52] is U16 && fv[50] is Bytes) by {
        assert(conforms(fv[1], layout()[1]));
        assert(conforms(fv[2], layout()[2]));
        assert(conforms(fv[50], layout()[50]));
        assert(conforms(fv[51], layout()[51]));
        assert(conforms(fv[52], layout()[52]));
    }
    let fl = get_u32(&f, 0);
    let marked = bit_exec(fl, TRANSLATION_RANGE_MIN) && bit_exec(fl, TRANSLATION_RANGE_MAX);
    let header = fl < 32768 && !bit_exec(fl, GRAVITY_NO_ALTITUDE) && (bit_exec(fl, GRAVITY)
        || !bit_exec(fl, GRAVITY_COMPLEX)) && (marked || (!bit_exec(fl, TRANSLATION_RANGE_MIN)
        && !bit_exec(fl, TRANSLATION_RANGE_MAX))) && get_u16(&f, 2) == 0 && float::f32_is_zero(
        get_u32(&f, 3),
    ) && vec3_is_zero_exec(vec_exec(&f, 20)) && vec3_is_zero_exec(vec_exec(&f, 23))
        && float::f32_is_zero(get_u32(&f, 31)) && vec3_is_zero_exec(vec_exec(&f, 38))
        && vec3_is_zero_exec(vec_exec(&f, 47));
    if !header {
        return Err(Error::Invalid);
    }
    let node = ad.node_from_index(get_u16(&f, 1) as u32)?;
    let morph = value_exec(bit_exec(fl, MORPH), get_u32(&f, 5))?;
    let gravity_value = value_exec(bit_exec(fl, GRAVITY), get_u32(&f, 4))?;
    let tr = TranslationRange {
        xz: Range { min: get_u32(&f, 6), max: get_u32(&f, 7) },
        y: Range { min: get_u32(&f, 8), max: get_u32(&f, 9) },
        initial: Range { min: get_u32(&f, 10), max: get_u32(&f, 11) },
        delta: Range { min: get_u32(&f, 12), max: get_u32(&f, 13) },
    };
    let translation_range = if marked {
        Some(tr)
    } else if range_is_zero_exec(tr.xz) && range_is_zero_exec(tr.y) && range_is_zero_exec(
        tr.initial,
    ) && range_is_zero_exec(tr.delta) {
        None
    } else {
        return Err(Error::Invalid);
    };
    let tl = ObjectMotionTranslation {
        initial: vec_exec(&f, 14),
        delta: vec_exec(&f, 17),
        rnd_xz: vec_exec(&f, 26),
    };
    let translation = if bit_exec(fl, TRANSLATION) {
        Some(tl)
    } else if vec3_is_zero_exec(tl.initial) && vec3_is_zero_exec(tl.delta) && vec3_is_zero_exec(
        tl.rnd_xz,
    ) {
        None
    } else {
        return Err(Error::Invalid);
    };
    let fwd_initial = get_u32(&f, 29);
    let fwd_delta = get_u32(&f, 30);
    let forward_rotation = if bit_exec(fl, FORWARD_ROTATION_TIME) {
        if bit_exec(fl, FORWARD_ROTATION_DISTANCE) {
            return Err(Error::Invalid);
        }
        Some(ForwardRotation::Time { initial: fwd_initial, delta: fwd_delta })
    } else if bit_exec(fl, FORWARD_ROTATION_DISTANCE) {
        if !float::f32_is_zero(fwd_delta) {
            return Err(Error::Invalid);
        }
        Some(ForwardRotation::Distance { initial: fwd_initial })
    } else if float::f32_is_zero(fwd_initial) && float::f32_is_zero(fwd_delta) {
        None
    } else {
        return Err(Error::Invalid);
    };
    let xyz = ObjectMotionXyzRot { initial: vec_exec(&f, 32), delta: vec_exec(&f, 35) };
    let xyz_rotation = if bit_exec(fl, XYZ_ROTATION) {
        Some(xyz)
    } else if vec3_is_zero_exec(xyz.initial) && vec3_is_zero_exec(xyz.delta) {
        None
    } else {
        return Err(Error::Invalid);
    };
    let sc = ObjectMotionScale { initial: vec_exec(&f, 41), delta: vec_exec(&f, 44) };
    let scale = if bit_exec(fl, SCALE) {
        Some(sc)
    } else if vec3_is_zero_exec(sc.initial) && vec3_is_zero_exec(sc.delta) {
        None
    } else {
        return Err(Error::Invalid);
    };
    let name_field = get_bytes(&f, 50);
    let seq_index = get_u16(&f, 51);
    let bounce_sequence = if bit_exec(fl, BOUNCE_SEQUENCE) {
        let n = match unpad_exec(name_field) {
            Some(n) => n,
            None => return Err(Error::Invalid),
        };
        if seq_index != BY_NAME {
            return Err(Error::Invalid);
        }
        Some(BounceSequences { default: Some(n), water: None, lava: None })
    } else if all_zero_exec(name_field) && seq_index == 0 {
        None
    } else {
        return Err(Error::Invalid);
    };
    let snd_index = get_u16(&f, 52);
    let volume = get_u32(&f, 53);
    let bounce_sound = if bit_exec(fl, BOUNCE_SOUND) {
        let n = ad.stc_sound_from_index(snd_index as u32)?;
        Some(
            BounceSounds {
                default: Some(BounceSound { name: n, volume }),
                water: None,
                lava: None,
            },
        )
    } else if snd_index == 0 && float::f32_is_zero(volume) {
        None
    } else {
        return Err(Error::Invalid);
    };
    let rt = get_u32(&f, 54);
    let run_time = if bit_exec(fl, RUN_TIME) {
        if !float::f32_lt(float::ZERO, rt) {
            return Err(Error::Invalid);
        }
        Some(rt)
    } else if float::f32_is_zero(rt) {
        None
    } else {
        return Err(Error::Invalid);
    };
    let gravity = match gravity_value {
        Some(g) => Some(Gravity { value: g, complex: bit_exec(fl, GRAVITY_COMPLEX), no_altitude: false }),
        None => None,
    };
    Ok(
        ObjectMotion {
            node,
            impact_force: bit_exec(fl, IMPACT_FORCE),
            morph,
            gravity,
            translation_range,
            translation,
            forward_rotation,
            xyz_rotation,
            scale,
            bounce_sequence,
            bounce_sound,
            run_time,
        },
    )
}

fn sequence_fields_exec(v: &ObjectMotion<Vec<u8>>) -> (r: Result<(Vec<u8>, u16), Error>)
    ensures
        match sequence_fields(v.deep_view().bounce_sequence) {
            Some(p) => r matches Ok(x) && x.0@ == p.0 && x.1 == p.1,
            None => r == Err::<(Vec<u8>, u16), Error>(Error::Invalid),
        },
{
    match &v.bounce_sequence {
        None => Ok((zeros_exec(32), 0)),
        Some(x) => {
            if x.water.is_some() || x.lava.is_some() {
                return Err(Error::Invalid);
            }
            match &x.default {
                None => Ok((zeros_exec(32), 0)),
                Some(n) => match pad_exec(n, 32) {
                    Some(nb) => Ok((nb, BY_NAME)),
                    None => Err(Error::Invalid),
                },
            }
        },
    }
}

fn sound_fields_exec(ad: &AnimDef, v: &ObjectMotion<Vec<u8>>) -> (r: Result<(u16, u32), Error>)
    ensures
        match sound_fields(ad@, v.deep_view().bounce_sound) {
            Some(p) => r == Ok::<(u16, u32), Error>(p),
            None => r == Err::<(u16, u32), Error>(Error::Invalid),
        },
{
    match &v.bounce_sound {
        None => Ok((0, 0)),
        Some(x) => {
            if x.water.is_some() || x.lava.is_some() {
                return Err(Error::Invalid);
            }
            match &x.default {
                None => Ok((0, 0)),
                Some(s) => {
                    let i = ad.stc_sound_to_index(&s.name)?;
                    Ok((i, s.volume))
                },
            }
        },
    }
}

/// Writes an `OBJECT_MOTION` record of the earlier games.
#[verifier::spinoff_prover]
#[verifier::rlimit(100)]
pub fn write(v: &ObjectMotion<Vec<u8>>, ad: &AnimDef, out: &mut Vec<u8>) -> (r: Result<(), Error>)
    ensures
        match serialize(ad@, v.deep_view()) {
            Some(b) => r is Ok && final(out)@ == old(out)@ + b,
            None => r == Err::<(), Error>(Error::Invalid) && final(out)@ == old(out)@,
        },
{
    if let Some(g) = &v.gravity {
        if g.no_altitude {
            return Err(Error::Invalid);
        }
    }
    let ni = ad.node_to_index(&v.node)?;
    let (bs0, bs1) = sequence_fields_exec(v)?;
    let (sn0, sn1) = sound_fields_exec(ad, v)?;
    let zr = Range { min: 0, max: 0 };
    let zv = Vec3 { x: 0, y: 0, z: 0 };
    let tr = match v.translation_range {
        Some(t) => t,
        None => TranslationRange { xz: zr, y: zr, initial: zr, delta: zr },
    };
    let tl = match v.translation {
        Some(t) => t,
        None => ObjectMotionTranslation { initial: zv, delta: zv, rnd_xz: zv },
    };
    let fwd: (u32, u32) = match v.forward_rotation {
        Some(ForwardRotation::Time { initial, delta }) => (initial, delta),
        Some(ForwardRotation::Distance { initial }) => (initial, 0),
        None => (0, 0),
    };
    let xyz = match v.xyz_rotation {
        Some(r) => r,
        None => ObjectMotionXyzRot { initial: zv, delta: zv },
    };
    let sc = match v.scale {
        Some(r) => r,
        None => ObjectMotionScale { initial: zv, delta: zv },
    };
    let gv: u32 = match v.gravity {
        Some(g) => g.value,
        None => 0,
    };
    let morph: u32 = match v.morph {
        Some(m) => m,
        None => 0,
    };
    let rt: u32 = match v.run_time {
        Some(m) => m,
        None => 0,
    };
    let complex = match v.gravity {
        Some(g) => g.complex,
        None => false,
    };
    let fl = word_exec(
        v.gravity.is_some(),
        v.impact_force,
        v.translation.is_some(),
        v.translation_range.is_some(),
        v.translation_range.is_some(),
        v.xyz_rotation.is_some(),
        matches!(v.forward_rotation, Some(ForwardRotation::Distance { .. })),
        matches!(v.forward_rotation, Some(ForwardRotation::Time { .. })),
        v.scale.is_some(),
        v.morph.is_some(),
        v.run_time.is_some(),
        v.bounce_sequence.is_some(),
        v.bounce_sound.is_some(),
        complex,
        false,
    );
    let ghost bsv = bs0@;
    let fs = vec![
        Fld::U32(fl),
        Fld::U16(ni),
        Fld::U16(0),
        Fld::U32(0),
        Fld::U32(gv),
        Fld::U32(morph),
        Fld::U32(tr.xz.min),
        Fld::U32(tr.xz.max),
        Fld::U32(tr.y.min),
        Fld::U32(tr.y.max),
        Fld::U32(tr.initial.min),
        Fld::U32(tr.initial.max),
        Fld::U32(tr.delta.min),
        Fld::U32(tr.delta.max),
        Fld::U32(tl.initial.x),
        Fld::U32(tl.initial.y),
        Fld::U32(tl.initial.z),
        Fld::U32(tl.delta.x),
        Fld::U32(tl.delta.y),
        Fld::U32(tl.delta.z),
        Fld::U32(0),
        Fld::U32(0),
        Fld::U32(0),
        Fld::U32(0),
        Fld::U32(0),
        Fld::U32(0),
        Fld::U32(tl.rnd_xz.x),
        Fld::U32(tl.rnd_xz.y),
        Fld::U32(tl.rnd_xz.z),
        Fld::U32(fwd.0),
        Fld::U32(fwd.1),
        Fld::U32(0),
        Fld::U32(xyz.initial.x),
        Fld::U32(xyz.initial.y),
        Fld::U32(xyz.initial.z),
        Fld::U32(xyz.delta.x),
        Fld::U32(xyz.delta.y),
        Fld::U32(xyz.delta.z),
        Fld::U32(0),
        Fld::U32(0),
        Fld::U32(0),
        Fld::U32(sc.initial.x),
        Fld::U32(sc.initial.y),
        Fld::U32(sc.initial.z),
        Fld::U32(sc.delta.x),
        Fld::U32(sc.delta.y),
        Fld::U32(sc.delta.z),
        Fld::U32(0),
        Fld::U32(0),
        Fld::U32(0),
        Fld::Bytes(bs0),
        Fld::U16(bs1),
        Fld::U16(sn0),
        Fld::U32(sn1),
        Fld::U32(rt),
    ];
    proof {
        assert(fields_view(fs@) =~= to_fields(ad@, v.deep_view()).unwrap());
    }
    encode_record(&fs, out);
    Ok(())
}

/// A writable event: one that can be written and reads back as itself.
pub open spec fn writable(ad: AnimDefV, v: ObjectMotion<Seq<u8>>) -> bool {
    &&& index_of(ad.nodes, v.node) is Some
    &&& v.gravity matches Some(g) ==> !g.no_altitude
    &&& v.bounce_sequence matches Some(b) ==> (b.water is None && b.lava is None && (
    b.default matches Some(n) && pad(n, 32) is Some))
    &&& v.bounce_sound matches Some(b) ==> (b.water is None && b.lava is None && (
    b.default matches Some(s) && index_of(ad.static_sounds, s.name) is Some))
    &&& v.run_time matches Some(r) ==> float::lt(float::ZERO, r)
}

/// The fields of a writable event have the kinds of the layout and read
/// back as the event.
#[verifier::spinoff_prover]
#[verifier::rlimit(100)]
proof fn lemma_from_to_fields(ad: AnimDefV, v: ObjectMotion<Seq<u8>>)
    requires
        writable(ad, v),
    ensures
        to_fields(ad, v) matches Some(g) && conforms_all(g, layout()) && from_fields(ad, g) == Some(
            v,
        ),
{
    crate::anim_def::lemma_name_at_index_of(ad.nodes, v.node);
    if let Some(b) = v.bounce_sequence {
        lemma_unpad_pad(b.default.unwrap(), 32);
    } else {
        assert(all_zero(zeros(32)));
    }
    if let Some(b) = v.bounce_sound {
        crate::anim_def::lemma_name_at_index_of(ad.static_sounds, b.default.unwrap().name);
    }
    lemma_word(
        v.gravity is Some,
        v.impact_force,
        v.translation is Some,
        v.translation_range is Some,
        v.translation_range is Some,
        v.xyz_rotation is Some,
        v.forward_rotation matches Some(ForwardRotation::Distance { .. }),
        v.forward_rotation matches Some(ForwardRotation::Time { .. }),
        v.scale is Some,
        v.morph is Some,
        v.run_time is Some,
        v.bounce_sequence is Some,
        v.bounce_sound is Some,
        v.gravity matches Some(g) && g.complex,
        false,
    );
    let g = to_fields(ad, v).unwrap();
    lemma_layout_size();
    assert(conforms_all(g, layout())) by {
        if let Some(b) = v.bounce_sequence {
            assert(pad(b.default.unwrap(), 32).unwrap().len() == 32);
        }
        assert forall|k: int| 0 <= k < g.len() implies conforms(#[trigger] g[k], layout()[k]) by {}
    }
    assert(header_ok(g));
    assert(from_fields(ad, g) == Some(v));
}

/// An event that was read can be written.
proof fn lemma_read_writable(ad: AnimDefV, s: Seq<u8>)
    requires
        parse(ad, s) is Some,
    ensures
        writable(ad, parse(ad, s).unwrap()),
{
    let f = decode(layout(), s);
    lemma_layout_size();
    lemma_decode_conforms(layout(), s);
    assert(conforms(f[50], layout()[50]));
    let fl = w32(f, 0);
    lemma_name_reread(ad.nodes, w16(f, 1) as int);
    if bit(fl, BOUNCE_SEQUENCE) {
        lemma_pad_unpad(wbytes(f, 50));
    }
    if bit(fl, BOUNCE_SOUND) {
        lemma_name_reread(ad.static_sounds, w16(f, 52) as int);
    }
}

/// Writing an event that was read, then reading it again, gives the same
/// event.
pub proof fn lemma_reread(ad: AnimDefV, s: Seq<u8>)
    requires
        parse(ad, s) is Some,
    ensures
        serialize(ad, parse(ad, s).unwrap()) matches Some(b) && parse(ad, b) == parse(ad, s),
{
    let v = parse(ad, s).unwrap();
    lemma_read_writable(ad, s);
    lemma_from_to_fields(ad, v);
    let g = to_fields(ad, v).unwrap();
    lemma_layout_size();
    lemma_decode_encode(g, layout());
    lemma_encode_size(g, layout());
    assert(serialize(ad, v) == Some(encode(g)));
}

/// The record is written back exactly as read: the values that are only
/// checked to be zero, and the parts whose flags are not set, have no
/// `-0.0`.
pub open spec fn exact_record(ad: AnimDefV, s: Seq<u8>) -> bool {
    let f = decode(layout(), s);
    let fl = w32(f, 0);
    &&& w32(f, 3) != float::NEG_ZERO && w32(f, 31) != float::NEG_ZERO
    &&& vec3_no_neg_zero(vec_at(f, 20)) && vec3_no_neg_zero(vec_at(f, 23))
    &&& vec3_no_neg_zero(vec_at(f, 38)) && vec3_no_neg_zero(vec_at(f, 47))
    &&& !bit(fl, MORPH) ==> w32(f, 5) != float::NEG_ZERO
    &&& !bit(fl, GRAVITY) ==> w32(f, 4) != float::NEG_ZERO
    &&& !range_marked(fl) ==> range_no_neg_zero(range_at(f, 6)) && range_no_neg_zero(
        range_at(f, 8),
    ) && range_no_neg_zero(range_at(f, 10)) && range_no_neg_zero(range_at(f, 12))
    &&& !bit(fl, TRANSLATION) ==> vec3_no_neg_zero(vec_at(f, 14)) && vec3_no_neg_zero(vec_at(f, 17))
        && vec3_no_neg_zero(vec_at(f, 26))
    &&& !bit(fl, FORWARD_ROTATION_TIME) ==> w32(f, 30) != float::NEG_ZERO
    &&& !bit(fl, FORWARD_ROTATION_TIME) && !bit(fl, FORWARD_ROTATION_DISTANCE) ==> w32(f, 29) != float::NEG_ZERO
    &&& !bit(fl, XYZ_ROTATION) ==> vec3_no_neg_zero(vec_at(f, 32)) && vec3_no_neg_zero(vec_at(f, 35))
    &&& !bit(fl, SCALE) ==> vec3_no_neg_zero(vec_at(f, 41)) && vec3_no_neg_zero(vec_at(f, 44))
    &&& !bit(fl, BOUNCE_SOUND) ==> w32(f, 53) != float::NEG_ZERO
    &&& !bit(fl, RUN_TIME) ==> w32(f, 54) != float::NEG_ZERO
}

/// Writing the event of a record gives the record back, where the nodes and the
/// static sounds of the definition are distinct and the record is written back
/// exactly.
#[verifier::spinoff_prover]
#[verifier::rlimit(100)]
pub proof fn lemma_exact(ad: AnimDefV, s: Seq<u8>)
    requires
        parse(ad, s) is Some,
        crate::anim_def::unique_names(ad.nodes),
        crate::anim_def::unique_names(ad.static_sounds),
        exact_record(ad, s),
    ensures
        serialize(ad, parse(ad, s).unwrap()) == Some(s),
{
    let f = decode(layout(), s);
    lemma_layout_size();
    lemma_decode_conforms(layout(), s);
    lemma_encode_decode(layout(), s);
    lemma_conforming_fields(f, layout());
    let fl = w32(f, 0);
    lemma_word_rebuild(fl);
    lemma_index_of_name_at(ad.nodes, w16(f, 1) as int);
    assert(conforms(f[50], layout()[50]));
    if bit(fl, BOUNCE_SEQUENCE) {
        lemma_pad_unpad(wbytes(f, 50));
    } else {
        assert(wbytes(f, 50) =~= zeros(32));
    }
    if bit(fl, BOUNCE_SOUND) {
        lemma_index_of_name_at(ad.static_sounds, w16(f, 52) as int);
    }
    assert(to_fields(ad, parse(ad, s).unwrap()).unwrap() =~= f);
}


/// The offset of the first six fields of the record.
proof fn lemma_head_offsets()
    ensures
        size(layout().take(0)) == 0,
        size(layout().take(1)) == 4,
        size(layout().take(4)) == 12,
        size(layout().take(5)) == 16,
{
    reveal_with_fuel(size, 6);
    assert(layout().take(0) =~= Seq::<Kind>::empty());
    assert(layout().take(1) =~= seq![Kind::U32]);
    assert(layout().take(4) =~= seq![Kind::U32, Kind::U16, Kind::U16, Kind::U32]);
    assert(layout().take(5) =~= seq![Kind::U32, Kind::U16, Kind::U16, Kind::U32, Kind::U32]);
}

/// An event read from a record follows the record's flag word, the four
/// bytes at offset 0, little-endian: the impact force is its bit
/// `IMPACT_FORCE`; gravity, morph, translation, rotation about the axes,
/// scale, bounce sequence and sound and run time are present exactly where
/// their bits are set; a gravity is complex by its own bit and never keeps
/// no altitude; a forward rotation is over time or over distance by its
/// bits. The node is the one the two-byte number at offset 4 refers to;
/// the gravity and the morph are the numbers at offsets 12 and 16.
pub proof fn lemma_flags_read(ad: AnimDefV, s: Seq<u8>)
    requires
        parse(ad, s) is Some,
    ensures
        ({
            let v = parse(ad, s).unwrap();
            let fl = crate::record::le32_at(s, 0);
            &&& v.impact_force == bit(fl, IMPACT_FORCE)
            &&& (v.gravity is Some) == bit(fl, GRAVITY)
            &&& (v.morph is Some) == bit(fl, MORPH)
            &&& (v.translation is Some) == bit(fl, TRANSLATION)
            &&& (v.xyz_rotation is Some) == bit(fl, XYZ_ROTATION)
            &&& (v.scale is Some) == bit(fl, SCALE)
            &&& (v.bounce_sequence is Some) == bit(fl, BOUNCE_SEQUENCE)
            &&& (v.bounce_sound is Some) == bit(fl, BOUNCE_SOUND)
            &&& (v.run_time is Some) == bit(fl, RUN_TIME)
            &&& (v.forward_rotation matches Some(ForwardRotation::Time { .. })) == bit(
                fl,
                FORWARD_ROTATION_TIME,
            )
            &&& (v.forward_rotation matches Some(ForwardRotation::Distance { .. })) == bit(
                fl,
                FORWARD_ROTATION_DISTANCE,
            )
            &&& v.gravity matches Some(g) ==> g.complex == bit(fl, GRAVITY_COMPLEX) && !g.no_altitude
                && g.value == crate::record::le32_at(s, 12)
            &&& v.morph matches Some(m) ==> m == crate::record::le32_at(s, 16)
            &&& name_at(ad.nodes, crate::record::le16_at(s, 4) as int) == Some(v.node)
        }),
{
    lemma_layout_size();
    lemma_head_offsets();
    crate::record::lemma_numbers_at(layout(), s, 0);
    crate::record::lemma_numbers_at(layout(), s, 1);
    crate::record::lemma_numbers_at(layout(), s, 4);
    crate::record::lemma_numbers_at(layout(), s, 5);
}

/// The record written for an event holds in its flag word, the four bytes
/// at offset 0, little-endian, the impact force at bit `IMPACT_FORCE`, and
/// each part's bit set exactly where the part is present; at offset 4 the
/// index of its node, and at offsets 12 and 16 its gravity and morph, or
/// zero.
pub proof fn lemma_flags_written(ad: AnimDefV, v: ObjectMotion<Seq<u8>>)
    requires
        serialize(ad, v) is Some,
    ensures
        ({
            let b = serialize(ad, v).unwrap();
            let fl = crate::record::le32_at(b, 0);
            &&& bit(fl, IMPACT_FORCE) == v.impact_force
            &&& bit(fl, GRAVITY) == (v.gravity is Some)
            &&& bit(fl, MORPH) == (v.morph is Some)
            &&& bit(fl, TRANSLATION) == (v.translation is Some)
            &&& bit(fl, XYZ_ROTATION) == (v.xyz_rotation is Some)
            &&& bit(fl, SCALE) == (v.scale is Some)
            &&& bit(fl, BOUNCE_SEQUENCE) == (v.bounce_sequence is Some)
            &&& bit(fl, BOUNCE_SOUND) == (v.bounce_sound is Some)
            &&& bit(fl, RUN_TIME) == (v.run_time is Some)
            &&& bit(fl, FORWARD_ROTATION_TIME) == (v.forward_rotation matches Some(
                ForwardRotation::Time { .. },
            ))
            &&& bit(fl, FORWARD_ROTATION_DISTANCE) == (v.forward_rotation matches Some(
                ForwardRotation::Distance { .. },
            ))
            &&& bit(fl, GRAVITY_COMPLEX) == (v.gravity matches Some(g) && g.complex)
            &&& !bit(fl, GRAVITY_NO_ALTITUDE)
            &&& crate::record::le16_at(b, 4) == index_of(ad.nodes, v.node).unwrap() as u16
            &&& crate::record::le32_at(b, 12) == (match v.gravity {
                Some(g) => g.value,
                None => 0u32,
            })
            &&& crate::record::le32_at(b, 16) == or_zero(v.morph)
        }),
{
    let g = to_fields(ad, v).unwrap();
    lemma_layout_size();
    lemma_head_offsets();
    assert(conforms_all(g, layout())) by {
        if let Some(q) = v.bounce_sequence {
            if let Some(n) = q.default {
                assert(pad(n, 32).unwrap().len() == 32);
            }
        }
        assert forall|k: int| 0 <= k < g.len() implies conforms(#[trigger] g[k], layout()[k]) by {}
    }
    crate::record::lemma_numbers_written(g, layout(), 0);
    crate::record::lemma_numbers_written(g, layout(), 1);
    crate::record::lemma_numbers_written(g, layout(), 4);
    crate::record::lemma_numbers_written(g, layout(), 5);
    lemma_word(
        v.gravity is Some,
        v.impact_force,
        v.translation is Some,
        v.translation_range is Some,
        v.translation_range is Some,
        v.xyz_rotation is Some,
        v.forward_rotation matches Some(ForwardRotation::Distance { .. }),
        v.forward_rotation matches Some(ForwardRotation::Time { .. }),
        v.scale is Some,
        v.morph is Some,
        v.run_time is Some,
        v.bounce_sequence is Some,
        v.bounce_sound is Some,
        v.gravity matches Some(g) && g.complex,
        false,
    );
}

} // verus!
