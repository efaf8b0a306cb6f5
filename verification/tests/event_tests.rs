use lib::anim_def::AnimDef;
use lib::error::Error;
use lib::events::anim_verbose::{self, AnimVerbose};
use lib::events::call_animation::{self, CallAnimationParameters};
use lib::events::call_object_connector::{self, CallObjectConnector, CallObjectConnectorTarget};
use lib::events::fog_state::{self, FogType};
use lib::events::named;
use lib::events::control_flow::{self, Condition, Elseif, If, NodeUndercover};
use lib::events::fbfx_csinwave_from_to;
use lib::events::object_motion_pg;
use lib::events::object_opacity_from_to::{state_from_i16, state_to_i16};
use lib::events::puffer_state::{self, PufferIntervalType, PufferStateColor, PufferStateTexture};
use lib::events::sound;
use lib::model::Range;

fn names(list: &[&str]) -> Option<Vec<Vec<u8>>> {
    Some(list.iter().map(|s| s.as_bytes().to_vec()).collect())
}

fn anim_def() -> AnimDef {
    AnimDef {
        name: b"anim".to_vec(),
        anim_name: b"anim_name".to_vec(),
        anim_root_name: b"root".to_vec(),
        has_callbacks: false,
        nodes: names(&["node_a", "node_b"]),
        lights: None,
        puffers: names(&["smoke", "fire"]),
        dynamic_sounds: None,
        static_sounds: names(&["boom"]),
        effects: None,
        anim_refs: None,
    }
}

fn le16(out: &mut Vec<u8>, x: u16) {
    out.extend_from_slice(&x.to_le_bytes());
}

fn le32(out: &mut Vec<u8>, x: u32) {
    out.extend_from_slice(&x.to_le_bytes());
}

fn f(out: &mut Vec<u8>, x: f32) {
    le32(out, x.to_bits());
}

fn name32(out: &mut Vec<u8>, name: &str) {
    let mut n = name.as_bytes().to_vec();
    n.resize(32, 0);
    out.extend_from_slice(&n);
}

const ACTIVE: u32 = 1 << 2;
const AT_NODE: u32 = 1 << 1;
const INTERVAL_TYPE: u32 = 1 << 7;
const INTERVAL_VALUE: u32 = 1 << 8;
const SIZE_RANGE: u32 = 1 << 9;
const GROWTH_FACTORS: u32 = 1 << 13;
const TEXTURES: u32 = 1 << 14;
const COLORS: u32 = 1 << 18;
const NUMBER: u32 = 1 << 21;

/// A puffer record: the flags, then the parts as given.
fn puffer_record(flags: u32, active: u32, textures: &[(&str, f32)], has_rt: bool, colors: &[[f32; 5]], growths: &[(f32, f32)]) -> Vec<u8> {
    let mut s = Vec::new();
    name32(&mut s, "fire");
    le32(&mut s, 2);
    le32(&mut s, flags);
    le32(&mut s, if flags & AT_NODE != 0 { 1 } else { 0xFFFF_FFFF });
    le32(&mut s, active);
    for i in 0..18 {
        if i < 3 && flags & 1 != 0 {
            f(&mut s, (i + 1) as f32);
        } else {
            f(&mut s, 0.0);
        }
    }
    le32(&mut s, if flags & INTERVAL_TYPE != 0 { 1 } else { 0 });
    f(&mut s, if flags & INTERVAL_VALUE != 0 { 0.5 } else { 0.0 });
    if flags & SIZE_RANGE != 0 {
        f(&mut s, 0.1);
        f(&mut s, 0.2);
    } else {
        f(&mut s, 0.0);
        f(&mut s, 0.0);
    }
    for _ in 0..12 {
        f(&mut s, 0.0);
    }
    assert_eq!(s.len(), 184);
    le32(&mut s, if has_rt { 1 } else { 0 });
    for i in 0..6 {
        match textures.get(i) {
            Some((n, rt)) => {
                f(&mut s, *rt);
                name32(&mut s, n);
            }
            None => {
                f(&mut s, 0.0);
                name32(&mut s, "");
            }
        }
    }
    assert_eq!(s.len(), 404);
    le32(&mut s, colors.len() as u32);
    for i in 0..6 {
        for j in 0..5 {
            f(&mut s, colors.get(i).map(|c| c[j]).unwrap_or(0.0));
        }
    }
    assert_eq!(s.len(), 528);
    le32(&mut s, growths.len() as u32);
    for i in 0..6 {
        let (a, b) = growths.get(i).copied().unwrap_or((0.0, 0.0));
        f(&mut s, a);
        f(&mut s, b);
    }
    assert_eq!(s.len(), 580);
    s
}

fn full_puffer() -> Vec<u8> {
    puffer_record(
        1 | AT_NODE | ACTIVE | INTERVAL_TYPE | INTERVAL_VALUE | SIZE_RANGE | GROWTH_FACTORS
            | TEXTURES | COLORS,
        3,
        &[("tex_a", 1.0), ("tex_b", 2.0)],
        true,
        &[[1.0, 0.0, 0.0, 0.0, 1.0], [0.0, 1.0, 0.0, 0.0, 1.0]],
        &[(0.5, 1.5)],
    )
}

#[test]
fn puffer_state_reads_its_parts() {
    let ad = anim_def();
    let v = puffer_state::read(&full_puffer(), &ad).unwrap();
    assert_eq!(v.common.name, b"fire".to_vec());
    assert_eq!(v.common.active_state, Some(3));
    assert_eq!(v.common.at_node, Some(b"node_a".to_vec()));
    assert_eq!(v.common.translate.map(|t| t.z), Some(3.0f32.to_bits()));
    assert!(v.common.local_velocity.is_none());
    let iv = v.common.interval.unwrap();
    assert_eq!(iv.interval_type, PufferIntervalType::Distance);
    assert_eq!(iv.interval_value, 0.5f32.to_bits());
    assert!(v.common.interval_garbage.is_none());
    assert_eq!(
        v.common.size_range,
        Some(Range { min: 0.1f32.to_bits(), max: 0.2f32.to_bits() })
    );
    assert!(v.number.is_none());
    let t = v.textures.unwrap();
    assert_eq!(t.len(), 2);
    assert_eq!(t[1].name, b"tex_b".to_vec());
    assert_eq!(t[1].run_time, Some(2.0f32.to_bits()));
    let c = v.colors.unwrap();
    assert_eq!(c.len(), 2);
    assert_eq!(c[1], PufferStateColor(0, 1.0f32.to_bits(), 0, 0, 1.0f32.to_bits()));
    assert_eq!(
        v.growth_factors.unwrap(),
        vec![Range { min: 0.5f32.to_bits(), max: 1.5f32.to_bits() }]
    );
}

#[test]
fn puffer_state_written_back_is_unchanged() {
    let ad = anim_def();
    let s = full_puffer();
    let v = puffer_state::read(&s, &ad).unwrap();
    let mut out = Vec::new();
    assert_eq!(puffer_state::write(&v, &ad, &mut out), Ok(()));
    assert_eq!(out, s);
}

#[test]
fn puffer_state_number_flag_is_read_as_none() {
    let ad = anim_def();
    let s = puffer_record(ACTIVE | NUMBER, 0, &[], false, &[], &[]);
    let mut v = puffer_state::read(&s, &ad).unwrap();
    assert!(v.number.is_none());
    let garbage = v.common.interval_garbage.unwrap();
    assert!(!garbage.has_interval_type && !garbage.has_interval_value);
    let mut out = Vec::new();
    assert_eq!(puffer_state::write(&v, &ad, &mut out), Ok(()));
    assert_eq!(u32::from_le_bytes([out[36], out[37], out[38], out[39]]), ACTIVE);
    v.number = Some(4);
    let mut out = Vec::new();
    assert_eq!(puffer_state::write(&v, &ad, &mut out), Ok(()));
    assert_eq!(u32::from_le_bytes([out[36], out[37], out[38], out[39]]), ACTIVE | NUMBER);
}

#[test]
fn puffer_state_inactive_allows_no_flags() {
    let ad = anim_def();
    let s = puffer_record(0, 0, &[], false, &[], &[]);
    let v = puffer_state::read(&s, &ad).unwrap();
    assert!(v.common.active_state.is_none());
    let s = puffer_record(SIZE_RANGE, 0, &[], false, &[], &[]);
    assert_eq!(puffer_state::read(&s, &ad).err(), Some(Error::Invalid));
}

#[test]
fn puffer_state_interval_with_one_flag_is_kept_as_stored() {
    let ad = anim_def();
    let s = puffer_record(ACTIVE | INTERVAL_TYPE, 1, &[], false, &[], &[]);
    let v = puffer_state::read(&s, &ad).unwrap();
    assert!(v.common.interval.is_none());
    let g = v.common.interval_garbage.unwrap();
    assert!(g.has_interval_type);
    assert!(!g.has_interval_value);
    assert_eq!(g.interval_type, PufferIntervalType::Distance);
    let mut out = Vec::new();
    assert_eq!(puffer_state::write(&v, &ad, &mut out), Ok(()));
    assert_eq!(out, s);
}

#[test]
fn puffer_state_refuses_bad_lists() {
    let ad = anim_def();
    // the textures flag without a named texture
    let s = puffer_record(ACTIVE | TEXTURES, 1, &[], false, &[], &[]);
    assert_eq!(puffer_state::read(&s, &ad).err(), Some(Error::Invalid));
    // a run time where the textures have none
    let s = puffer_record(ACTIVE | TEXTURES, 1, &[("t", 1.0)], false, &[], &[]);
    assert_eq!(puffer_state::read(&s, &ad).err(), Some(Error::Invalid));
    // six colours
    let six = [[1.0, 1.0, 1.0, 1.0, 1.0]; 6];
    let s = puffer_record(ACTIVE | COLORS, 1, &[], false, &six, &[]);
    assert_eq!(puffer_state::read(&s, &ad).err(), Some(Error::Invalid));
    // a colour without the flag
    let s = puffer_record(ACTIVE, 1, &[], false, &six[..1], &[]);
    assert_eq!(puffer_state::read(&s, &ad).err(), Some(Error::Invalid));
    // a zero growth factor among the counted ones
    let s = puffer_record(ACTIVE | GROWTH_FACTORS, 1, &[], false, &[], &[(0.0, 0.0)]);
    assert_eq!(puffer_state::read(&s, &ad).err(), Some(Error::Invalid));
    // an active state above 10
    let s = puffer_record(ACTIVE, 11, &[], false, &[], &[]);
    assert_eq!(puffer_state::read(&s, &ad).err(), Some(Error::Invalid));
    // a record of another size
    assert_eq!(puffer_state::read(&full_puffer()[..579], &ad).err(), Some(Error::Invalid));
}

#[test]
fn puffer_state_write_refuses_seven_items() {
    let ad = anim_def();
    let mut v = puffer_state::read(&full_puffer(), &ad).unwrap();
    v.colors = Some(vec![PufferStateColor(1, 1, 1, 1, 1); 7]);
    let mut out = Vec::new();
    assert_eq!(puffer_state::write(&v, &ad, &mut out), Err(Error::Invalid));
    assert!(out.is_empty());
    v.colors = None;
    v.textures = Some(
        (0..7).map(|_| PufferStateTexture { name: b"t".to_vec(), run_time: None }).collect(),
    );
    assert_eq!(puffer_state::write(&v, &ad, &mut out), Err(Error::Invalid));
    v.textures = None;
    v.common.name = b"unknown".to_vec();
    assert_eq!(puffer_state::write(&v, &ad, &mut out), Err(Error::Invalid));
    assert!(out.is_empty());
}

#[test]
fn sound_without_node_needs_zero_position() {
    let ad = anim_def();
    let mut s = Vec::new();
    le16(&mut s, 1);
    le16(&mut s, 0);
    f(&mut s, 0.0);
    f(&mut s, -0.0);
    f(&mut s, 0.0);
    let v = sound::read(&s, &ad).unwrap();
    assert!(v.at_node.is_none());
    let mut out = Vec::new();
    assert_eq!(sound::write(&v, &ad, &mut out), Ok(()));
    assert_eq!(out, vec![1, 0, 0, 0, 0, 0, 0, 0, 0, 0, 0, 0, 0, 0, 0, 0]);
    let mut bad = s.clone();
    bad[4..8].copy_from_slice(&1.0f32.to_bits().to_le_bytes());
    assert_eq!(sound::read(&bad, &ad).err(), Some(Error::Invalid));
}

#[test]
fn opacity_state_values() {
    assert_eq!(state_to_i16(None), -1);
    assert_eq!(state_to_i16(Some(false)), 0);
    assert_eq!(state_to_i16(Some(true)), 1);
    assert_eq!(state_from_i16(-1), Ok(None));
    assert_eq!(state_from_i16(0), Ok(Some(false)));
    assert_eq!(state_from_i16(1), Ok(Some(true)));
    assert_eq!(state_from_i16(2), Err(Error::Invalid));
    assert_eq!(state_from_i16(-2), Err(Error::Invalid));
}

#[test]
fn anim_verbose_reads_a_boolean() {
    let ad = anim_def();
    assert_eq!(anim_verbose::read(&[1, 0, 0, 0], &ad), Ok(AnimVerbose { on: true }));
    assert_eq!(anim_verbose::read(&[0, 0, 0, 0], &ad), Ok(AnimVerbose { on: false }));
    assert_eq!(anim_verbose::read(&[2, 0, 0, 0], &ad), Err(Error::Invalid));
    let mut out = Vec::new();
    assert_eq!(anim_verbose::write(&AnimVerbose { on: false }, &ad, &mut out), Ok(()));
    assert_eq!(out, vec![0, 0, 0, 0]);
}

fn csinwave_record(flags: u16, run_time: f32) -> Vec<u8> {
    let mut s = Vec::new();
    le16(&mut s, flags);
    le16(&mut s, if flags & 2 != 0 { 2 } else { 0 });
    for _ in 0..3 {
        f(&mut s, if flags & 2 != 0 { 1.0 } else { 0.0 });
    }
    for _ in 0..6 {
        f(&mut s, if flags & 1 != 0 { 0.25 } else { 0.0 });
    }
    f(&mut s, if flags & 8 != 0 { 3.0 } else { 0.0 });
    f(&mut s, if flags & 8 != 0 { 4.0 } else { 0.0 });
    for _ in 0..3 {
        f(&mut s, if flags & 4 != 0 { 0.5 } else { 0.0 });
    }
    for i in 0..9 {
        f(&mut s, i as f32);
    }
    f(&mut s, run_time);
    assert_eq!(s.len(), 100);
    s
}

#[test]
fn csinwave_reads_and_writes_back() {
    let ad = anim_def();
    for flags in [0u16, 1, 2, 4, 8, 15] {
        let s = csinwave_record(flags, 2.0);
        let v = fbfx_csinwave_from_to::read(&s, &ad).unwrap();
        assert_eq!(v.at_node.is_some(), flags & 2 != 0);
        assert_eq!(v.world_radius.is_some(), flags & 8 != 0);
        assert_eq!(v.csin.z.delta, 8.0f32.to_bits());
        let mut out = Vec::new();
        assert_eq!(fbfx_csinwave_from_to::write(&v, &ad, &mut out), Ok(()));
        assert_eq!(out, s);
    }
}

#[test]
fn csinwave_refuses_bad_records() {
    let ad = anim_def();
    assert!(fbfx_csinwave_from_to::read(&csinwave_record(0, 0.0), &ad).is_err());
    assert!(fbfx_csinwave_from_to::read(&csinwave_record(16, 1.0), &ad).is_err());
    let mut s = csinwave_record(0, 1.0);
    s[44..48].copy_from_slice(&1.0f32.to_bits().to_le_bytes());
    assert!(fbfx_csinwave_from_to::read(&s, &ad).is_err());
}

/// An object motion record of the earlier games.
fn motion_pg_record(flags: u32, seq_index: u16) -> Vec<u8> {
    let mut s = Vec::new();
    le32(&mut s, flags);
    le16(&mut s, 1);
    le16(&mut s, 0);
    f(&mut s, 0.0);
    f(&mut s, if flags & 1 != 0 { -9.8 } else { 0.0 });
    f(&mut s, 0.0);
    for _ in 0..8 {
        f(&mut s, 0.0);
    }
    for i in 0..6 {
        f(&mut s, if flags & 4 != 0 { (i + 1) as f32 } else { 0.0 });
    }
    for _ in 0..6 {
        f(&mut s, 0.0);
    }
    for i in 0..3 {
        f(&mut s, if flags & 4 != 0 { (i + 7) as f32 } else { 0.0 });
    }
    for _ in 0..21 {
        f(&mut s, 0.0);
    }
    assert_eq!(s.len(), 196);
    name32(&mut s, if flags & (1 << 11) != 0 { "bounce" } else { "" });
    le16(&mut s, seq_index);
    le16(&mut s, if flags & (1 << 12) != 0 { 1 } else { 0 });
    f(&mut s, if flags & (1 << 12) != 0 { 1.0 } else { 0.0 });
    f(&mut s, if flags & (1 << 10) != 0 { 2.0 } else { 0.0 });
    assert_eq!(s.len(), 240);
    s
}

#[test]
fn object_motion_pg_reads_and_writes_back() {
    let ad = anim_def();
    let flags = 1 | 4 | (1 << 10) | (1 << 11) | (1 << 12);
    let s = motion_pg_record(flags, 0xFFFF);
    let v = object_motion_pg::read(&s, &ad).unwrap();
    assert_eq!(v.node, b"node_a".to_vec());
    let g = v.gravity.unwrap();
    assert_eq!(g.value, (-9.8f32).to_bits());
    assert!(!g.complex && !g.no_altitude);
    assert_eq!(v.translation.unwrap().rnd_xz.z, 9.0f32.to_bits());
    let seq = v.bounce_sequence.as_ref().unwrap();
    assert_eq!(seq.default, Some(b"bounce".to_vec()));
    assert!(seq.water.is_none() && seq.lava.is_none());
    let snd = v.bounce_sound.as_ref().unwrap().default.as_ref().unwrap();
    assert_eq!(snd.name, b"boom".to_vec());
    assert_eq!(v.run_time, Some(2.0f32.to_bits()));
    let mut out = Vec::new();
    assert_eq!(object_motion_pg::write(&v, &ad, &mut out), Ok(()));
    assert_eq!(out, s);
}

#[test]
fn object_motion_pg_refuses_bad_records() {
    let ad = anim_def();
    // a bounce sequence not called by name
    let s = motion_pg_record(1 << 11, 0);
    assert_eq!(object_motion_pg::read(&s, &ad).err(), Some(Error::Invalid));
    // gravity that ignores altitude
    let s = motion_pg_record(1 | (1 << 14), 0);
    assert_eq!(object_motion_pg::read(&s, &ad).err(), Some(Error::Invalid));
    // one translation range flag alone
    let s = motion_pg_record(1 << 3, 0);
    assert_eq!(object_motion_pg::read(&s, &ad).err(), Some(Error::Invalid));
    // an empty record is fine
    let s = motion_pg_record(0, 0);
    let v = object_motion_pg::read(&s, &ad).unwrap();
    assert!(v.gravity.is_none() && v.bounce_sound.is_none());
}

#[test]
fn object_motion_pg_write_refuses_what_the_format_lacks() {
    let ad = anim_def();
    let flags = 1 | 4 | (1 << 10) | (1 << 11) | (1 << 12);
    let mut v = object_motion_pg::read(&motion_pg_record(flags, 0xFFFF), &ad).unwrap();
    v.bounce_sequence.as_mut().unwrap().water = Some(b"splash".to_vec());
    let mut out = Vec::new();
    assert_eq!(object_motion_pg::write(&v, &ad, &mut out), Err(Error::Invalid));
    v.bounce_sequence = None;
    v.gravity.as_mut().unwrap().no_altitude = true;
    assert_eq!(object_motion_pg::write(&v, &ad, &mut out), Err(Error::Invalid));
    assert!(out.is_empty());
}

/// The record of Pirate's Moon: the common part, a number, then the rest.
fn puffer_pm_record(flags: u32, number: u32) -> Vec<u8> {
    let tex: &[(&str, f32)] = if flags & TEXTURES != 0 { &[("t", 0.0)] } else { &[] };
    let mw = puffer_record(flags, 1, tex, false, &[], &[]);
    let mut s = mw[..184].to_vec();
    le32(&mut s, number);
    s.extend_from_slice(&mw[184..]);
    assert_eq!(s.len(), 584);
    s
}

#[test]
fn puffer_state_pm_reads_its_number() {
    let ad = anim_def();
    let s = puffer_pm_record(ACTIVE | NUMBER | TEXTURES, 7);
    let v = puffer_state::read_pm(&s, &ad).unwrap();
    assert_eq!(v.number, Some(7));
    assert_eq!(v.textures.as_ref().unwrap()[0].name, b"t".to_vec());
    let mut out = Vec::new();
    assert_eq!(puffer_state::write_pm(&v, &ad, &mut out), Ok(()));
    assert_eq!(out, s);
    let s = puffer_pm_record(ACTIVE, 0);
    assert_eq!(puffer_state::read_pm(&s, &ad).unwrap().number, None);
}

#[test]
fn puffer_state_pm_refuses_bad_numbers() {
    let ad = anim_def();
    assert_eq!(
        puffer_state::read_pm(&puffer_pm_record(ACTIVE | NUMBER, 0), &ad).err(),
        Some(Error::Invalid)
    );
    assert_eq!(
        puffer_state::read_pm(&puffer_pm_record(ACTIVE, 3), &ad).err(),
        Some(Error::Invalid)
    );
    assert_eq!(
        puffer_state::read_pm(&puffer_record(ACTIVE, 1, &[], false, &[], &[]), &ad).err(),
        Some(Error::Invalid)
    );
}

#[test]
fn pm_if_node_undercover_reads_back() {
    let mut data = Vec::new();
    le32(&mut data, 16);
    le32(&mut data, 3);
    le32(&mut data, 250);
    le32(&mut data, 0);
    let v = control_flow::read_if_pm(&data).unwrap();
    let expected = Condition::NodeUndercover(NodeUndercover { node_index: 3, distance: 250 });
    assert_eq!(v.condition, expected);
    let mut out = Vec::new();
    control_flow::write_if_pm(&v, &mut out).unwrap();
    assert_eq!(out, data);
}

#[test]
fn pm_if_trailing_word_must_be_zero() {
    let mut data = Vec::new();
    le32(&mut data, 4);
    le32(&mut data, 0);
    le32(&mut data, 2);
    le32(&mut data, 1);
    assert_eq!(control_flow::read_if_pm(&data).unwrap_err(), Error::Invalid);
    // The same condition in the 12-byte form of the other games.
    assert_eq!(
        control_flow::read_if(&data[..12]).unwrap().condition,
        Condition::AnimationLod(2)
    );
    assert_eq!(control_flow::read_if_pm(&data[..12]).unwrap_err(), Error::Invalid);
}

#[test]
fn pm_elseif_writes_sixteen_bytes() {
    let v = Elseif { condition: Condition::HwRender(true) };
    let mut out = vec![0xAA];
    control_flow::write_elseif_pm(&v, &mut out).unwrap();
    let mut expected = vec![0xAA];
    le32(&mut expected, 32);
    le32(&mut expected, 0);
    le32(&mut expected, 1);
    le32(&mut expected, 0);
    assert_eq!(out, expected);
    let back = control_flow::read_elseif_pm(&out[1..]).unwrap();
    assert_eq!(back.condition, Condition::HwRender(true));
    let w = If { condition: Condition::PlayerFirstPerson(false) };
    let mut out2 = Vec::new();
    control_flow::write_if_pm(&w, &mut out2).unwrap();
    assert_eq!(out2.len(), 16);
}

#[test]
fn pm_if_bad_boolean_is_refused() {
    let mut data = Vec::new();
    le32(&mut data, 64);
    le32(&mut data, 0);
    le32(&mut data, 2);
    le32(&mut data, 0);
    assert_eq!(control_flow::read_elseif_pm(&data).unwrap_err(), Error::Invalid);
}

fn anim_def_with_refs() -> AnimDef {
    let mut ad = anim_def();
    ad.anim_refs = names(&["ref_a", "ref_b"]);
    ad
}

fn call_animation_record(flags: u16, wait: u16, node: u16) -> Vec<u8> {
    let mut data = b"walk".to_vec();
    data.resize(32, 0);
    le16(&mut data, 1);
    le16(&mut data, flags);
    le16(&mut data, 0);
    le16(&mut data, wait);
    le16(&mut data, node);
    le16(&mut data, 0);
    f(&mut data, 1.0);
    f(&mut data, 2.0);
    f(&mut data, 3.0);
    for _ in 0..3 {
        le32(&mut data, 0);
    }
    data
}

#[test]
fn call_animation_with_input_node_reads_back() {
    let ad = anim_def_with_refs();
    // with node, position, wait for completion
    let data = call_animation_record(8 | 2 | 16, 1, 0xFF38);
    let v = call_animation::read(&data, &ad).unwrap();
    assert_eq!(v.name, b"walk".to_vec());
    assert_eq!(v.operand_node, Some(b"node_a".to_vec()));
    assert_eq!(v.wait_for_completion, Some(1));
    match &v.parameters {
        Some(CallAnimationParameters::WithNode(w)) => {
            assert_eq!(w.node, b"INPUT_NODE".to_vec());
            assert_eq!(w.position.unwrap().x, 1.0f32.to_bits());
        }
        _ => panic!("expected with node"),
    }
    let mut out = Vec::new();
    call_animation::write(&v, &ad, &mut out).unwrap();
    assert_eq!(out, data);
}

#[test]
fn call_animation_rc_waits_by_index_not_flag() {
    let ad = anim_def_with_refs();
    // no wait flag, but a reference index: only Recoil reads it as a wait
    let data = call_animation_record(8 | 2, 0, 0xFF38);
    assert_eq!(call_animation::read(&data, &ad).unwrap_err(), Error::Invalid);
    let v = call_animation::read_rc(&data, &ad).unwrap();
    assert_eq!(v.wait_for_completion, Some(0));
    let mut out = Vec::new();
    call_animation::write_rc(&v, &ad, &mut out).unwrap();
    assert_eq!(out, data);
    // the other games set the flag when writing the same event
    let mut mw = Vec::new();
    call_animation::write(&v, &ad, &mut mw).unwrap();
    assert_eq!(mw, call_animation_record(8 | 2 | 16, 0, 0xFF38));
}

#[test]
fn call_animation_rc_ignores_wait_flag() {
    let ad = anim_def_with_refs();
    let data = call_animation_record(8 | 2 | 16, 0xFFFF, 0xFF38);
    let v = call_animation::read_rc(&data, &ad).unwrap();
    assert_eq!(v.wait_for_completion, None);
    assert_eq!(call_animation::read(&data, &ad).unwrap_err(), Error::Invalid);
    let mut out = Vec::new();
    call_animation::write_rc(&v, &ad, &mut out).unwrap();
    assert_eq!(out, call_animation_record(8 | 2, 0xFFFF, 0xFF38));
}

#[test]
fn call_animation_unknown_reference_is_refused() {
    let ad = anim_def_with_refs();
    let data = call_animation_record(8 | 2 | 16, 2, 0xFF38);
    assert_eq!(call_animation::read(&data, &ad).unwrap_err(), Error::Invalid);
    assert_eq!(call_animation::read_rc(&data, &ad).unwrap_err(), Error::Invalid);
}

#[test]
fn pm_stop_animation_stores_minus_one() {
    let mut out = Vec::new();
    named::write(&b"idle".to_vec(), named::STOP_ANIMATION_PM_INDEX, &mut out).unwrap();
    assert_eq!(out.len(), 36);
    assert_eq!(&out[32..], &[0xFF, 0xFF, 0xFF, 0xFF]);
    assert_eq!(named::read(&out, named::STOP_ANIMATION_PM_INDEX).unwrap(), b"idle".to_vec());
    assert_eq!(named::read(&out, named::ANIMATION_INDEX).unwrap_err(), Error::Invalid);
}

fn fog_record(flags: u32, ty: u32) -> Vec<u8> {
    let mut data = b"default_fog_name".to_vec();
    data.resize(32, 0);
    le32(&mut data, flags);
    le32(&mut data, ty);
    for _ in 0..7 {
        le32(&mut data, 0);
    }
    data
}

#[test]
fn fog_state_without_type_stores_linear() {
    let ad = anim_def();
    let v = fog_state::read(&fog_record(0, 1), &ad).unwrap();
    assert_eq!(v.type_, None);
    assert_eq!(fog_state::read(&fog_record(0, 0), &ad).unwrap_err(), Error::Invalid);
    let v = fog_state::read(&fog_record(1, 2), &ad).unwrap();
    assert_eq!(v.type_, Some(FogType::Exponential));
}

#[test]
fn fog_state_of_recoil_mission_six_stores_off() {
    let mut ad = anim_def();
    ad.name = b"vtol1".to_vec();
    ad.anim_name = b"m6_start_animation".to_vec();
    assert_eq!(fog_state::default_type_exec(&ad, 460748), 0);
    assert_eq!(fog_state::default_type_exec(&ad, 460749), 1);
    let off = fog_record(0, 0);
    let v = fog_state::read_at(&off, &ad, 460748).unwrap();
    assert_eq!(v.type_, None);
    assert_eq!(fog_state::read_at(&off, &ad, 100).unwrap_err(), Error::Invalid);
    let mut out = Vec::new();
    fog_state::write_at(&v, &ad, 460748, &mut out);
    assert_eq!(out, off);
    let mut out = Vec::new();
    fog_state::write_at(&v, &ad, 0, &mut out);
    assert_eq!(out, fog_record(0, 1));
    // another definition at the same offset stores linear
    let plain = anim_def();
    assert_eq!(fog_state::default_type_exec(&plain, 460748), 1);
}

#[test]
fn connector_target_keeps_its_position() {
    let ad = anim_def();
    let c = CallObjectConnector {
        name: b"a".to_vec(),
        save_index: None,
        from_node: None,
        to_node: Some(CallObjectConnectorTarget { name: b"node_b".to_vec(), pos: true }),
        from_pos: None,
        to_pos: None,
    };
    let mut out = Vec::new();
    assert_eq!(call_object_connector::write(&c, &ad, &mut out), Ok(()));
    assert_eq!(out.len(), 68);
    assert_eq!(&out[0..4], &[0x80, 0, 0, 0]);
    let back = call_object_connector::read(&out, &ad).unwrap();
    let t = back.to_node.as_ref().unwrap();
    assert_eq!(t.name, b"node_b".to_vec());
    assert!(t.pos);
    assert!(back.from_node.is_none());
    let mut again = Vec::new();
    assert_eq!(call_object_connector::write(&back, &ad, &mut again), Ok(()));
    assert_eq!(again, out);
}

#[test]
fn connector_source_keeps_its_position() {
    let ad = anim_def();
    let c = CallObjectConnector {
        name: b"a".to_vec(),
        save_index: None,
        from_node: Some(CallObjectConnectorTarget { name: b"node_a".to_vec(), pos: true }),
        to_node: Some(CallObjectConnectorTarget { name: b"node_b".to_vec(), pos: false }),
        from_pos: None,
        to_pos: None,
    };
    let mut out = Vec::new();
    assert_eq!(call_object_connector::write(&c, &ad, &mut out), Ok(()));
    assert_eq!(&out[0..4], &[0x42, 0, 0, 0]);
    let back = call_object_connector::read(&out, &ad).unwrap();
    assert!(back.from_node.as_ref().unwrap().pos);
    assert!(!back.to_node.as_ref().unwrap().pos);
}
