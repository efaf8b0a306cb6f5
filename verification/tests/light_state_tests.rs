use lib::anim_def::AnimDef;
use lib::error::Error;
use lib::events::light_state::{self, LightState};
use lib::model::{Color, Range, Translate, Vec3};

fn anim_def() -> AnimDef {
    AnimDef {
        name: b"anim".to_vec(),
        anim_name: b"anim_name".to_vec(),
        anim_root_name: b"root".to_vec(),
        has_callbacks: false,
        nodes: Some(vec![b"node_a".to_vec()]),
        lights: Some(vec![b"sun".to_vec(), b"moon".to_vec()]),
        puffers: None,
        dynamic_sounds: None,
        static_sounds: None,
        effects: None,
        anim_refs: None,
    }
}

fn le32(out: &mut Vec<u8>, x: u32) {
    out.extend_from_slice(&x.to_le_bytes());
}

fn f(out: &mut Vec<u8>, x: f32) {
    le32(out, x.to_bits());
}

fn name(out: &mut Vec<u8>, n: &str) {
    let mut b = n.as_bytes().to_vec();
    b.resize(32, 0);
    out.extend_from_slice(&b);
}

/// A record at the input node, with range, colour and directional set,
/// and in Pirate's Moon also subdivide and an ambient colour.
fn record(pm: bool, light: &str, index: u32, flags: u32, active: u32) -> Vec<u8> {
    let mut out = Vec::new();
    name(&mut out, light);
    le32(&mut out, index);
    le32(&mut out, flags);
    le32(&mut out, active);
    le32(&mut out, 3);
    le32(&mut out, 1);
    le32(&mut out, 0);
    if pm {
        for _ in 0..4 {
            le32(&mut out, 0);
        }
    }
    le32(&mut out, 0xFFFF_FF38);
    f(&mut out, 1.0);
    f(&mut out, 2.0);
    f(&mut out, 3.0);
    for _ in 0..3 {
        le32(&mut out, 0);
    }
    f(&mut out, 1.0);
    f(&mut out, 5.0);
    f(&mut out, 0.5);
    f(&mut out, 0.25);
    f(&mut out, 1.0);
    if pm {
        f(&mut out, 0.1);
        f(&mut out, 0.2);
        f(&mut out, 0.3);
    }
    le32(&mut out, 0);
    le32(&mut out, 0);
    out
}

const RC_FLAGS: u32 = 0x02 | 0x08 | 0x10 | 0x80;
const PM_FLAGS: u32 = RC_FLAGS | 0x200 | 0x800;

#[test]
fn pm_light_state_reads_its_parts() {
    let ad = anim_def();
    let data = record(true, "sun", 1, PM_FLAGS, 1);
    assert_eq!(data.len(), 140);
    let v = light_state::read_pm(&data, &ad).unwrap();
    assert_eq!(v.name, b"sun".to_vec());
    assert!(v.active_state);
    assert_eq!(v.type_, 3);
    assert_eq!(v.directional, Some(true));
    assert_eq!(v.saturated, None);
    assert_eq!(v.subdivide, Some(false));
    assert_eq!(v.lightmap, None);
    match &v.translate {
        Some(Translate::AtNode(a)) => {
            assert_eq!(a.name, b"INPUT_NODE".to_vec());
            assert_eq!(a.pos.y, 2.0f32.to_bits());
        }
        _ => panic!("expected a translation at a node"),
    }
    assert_eq!(v.orientation, None);
    assert_eq!(v.range, Some(Range { min: 1.0f32.to_bits(), max: 5.0f32.to_bits() }));
    assert_eq!(v.color.unwrap().g, 0.25f32.to_bits());
    assert_eq!(v.ambient_color.unwrap().b, 0.3f32.to_bits());
    assert_eq!(v.ambient, None);
    let mut out = Vec::new();
    light_state::write_pm(&v, &ad, &mut out).unwrap();
    assert_eq!(out, data);
}

#[test]
fn rc_light_state_reads_back() {
    let ad = anim_def();
    let data = record(false, "sun", 1, RC_FLAGS, 1);
    assert_eq!(data.len(), 112);
    let v = light_state::read_rc(&data, &ad).unwrap();
    assert_eq!(v.subdivide, None);
    assert_eq!(v.ambient_color, None);
    assert_eq!(v.directional, Some(true));
    let mut out = Vec::new();
    light_state::write_rc(&v, &ad, &mut out).unwrap();
    assert_eq!(out, data);
    // the Recoil flags are out of range there
    assert_eq!(light_state::read_rc(&record(false, "sun", 1, PM_FLAGS, 1), &ad).unwrap_err(), Error::Invalid);
}

#[test]
fn rc_light_state_does_not_write_the_parts_it_lacks() {
    let ad = anim_def();
    let v = LightState {
        name: b"moon".to_vec(),
        active_state: true,
        type_: 1,
        directional: None,
        saturated: Some(true),
        subdivide: Some(true),
        lightmap: Some(false),
        static_: None,
        bicolored: None,
        translate: Some(Translate::Absolute(Vec3 { x: 1, y: 2, z: 3 })),
        orientation: None,
        range: None,
        color: None,
        ambient_color: Some(Color { r: 0, g: 0, b: 0 }),
        ambient: Some(1.0f32.to_bits()),
        diffuse: None,
    };
    let mut out = Vec::new();
    light_state::write_rc(&v, &ad, &mut out).unwrap();
    assert_eq!(out.len(), 112);
    // index 2, flags: absolute, ambient, saturated
    assert_eq!(&out[32..36], &2u32.to_le_bytes());
    assert_eq!(&out[36..40], &(0x01u32 | 0x20 | 0x100).to_le_bytes());
    let back = light_state::read_rc(&out, &ad).unwrap();
    assert_eq!(back.subdivide, None);
    assert_eq!(back.lightmap, None);
    assert_eq!(back.ambient_color, None);
    assert_eq!(back.saturated, Some(true));
    assert_eq!(back.ambient, Some(1.0f32.to_bits()));
    let mut pm = Vec::new();
    light_state::write_pm(&v, &ad, &mut pm).unwrap();
    let back = light_state::read_pm(&pm, &ad).unwrap();
    assert_eq!(back.subdivide, Some(true));
    assert_eq!(back.lightmap, Some(false));
    assert_eq!(back.ambient_color, Some(Color { r: 0, g: 0, b: 0 }));
}

#[test]
fn light_state_with_wrong_name_is_refused() {
    let ad = anim_def();
    let data = record(true, "moon", 1, PM_FLAGS, 1);
    assert_eq!(light_state::read_pm(&data, &ad).unwrap_err(), Error::Invalid);
    let data = record(true, "sun", 3, PM_FLAGS, 1);
    assert_eq!(light_state::read_pm(&data, &ad).unwrap_err(), Error::Invalid);
}

#[test]
fn inactive_light_state_has_no_flags() {
    let ad = anim_def();
    let data = record(false, "sun", 1, RC_FLAGS, 0);
    assert_eq!(light_state::read_rc(&data, &ad).unwrap_err(), Error::Invalid);
    let mut empty = Vec::new();
    name(&mut empty, "sun");
    le32(&mut empty, 1);
    for _ in 0..19 {
        le32(&mut empty, 0);
    }
    let v = light_state::read_rc(&empty, &ad).unwrap();
    assert!(!v.active_state);
    assert!(v.translate.is_none() && v.range.is_none() && v.directional.is_none());
}

#[test]
fn light_state_values_must_be_in_range() {
    let ad = anim_def();
    let mut data = record(false, "sun", 1, RC_FLAGS, 1);
    // a range that falls
    data[88..92].copy_from_slice(&0.5f32.to_bits().to_le_bytes());
    assert_eq!(light_state::read_rc(&data, &ad).unwrap_err(), Error::Invalid);
    let mut data = record(false, "sun", 1, RC_FLAGS, 1);
    // a directional value that is not a boolean
    data[48..52].copy_from_slice(&2u32.to_le_bytes());
    assert_eq!(light_state::read_rc(&data, &ad).unwrap_err(), Error::Invalid);
    let mut data = record(false, "sun", 1, RC_FLAGS, 1);
    // a colour component above one
    data[92..96].copy_from_slice(&1.5f32.to_bits().to_le_bytes());
    assert_eq!(light_state::read_rc(&data, &ad).unwrap_err(), Error::Invalid);
}

#[test]
fn light_at_node_drops_the_absolute_flag_on_write() {
    let ad = anim_def();
    let data = record(false, "sun", 1, RC_FLAGS | 0x01, 1);
    let v = light_state::read_rc(&data, &ad).unwrap();
    assert!(matches!(v.translate, Some(Translate::AtNode(_))));
    let mut out = Vec::new();
    light_state::write_rc(&v, &ad, &mut out).unwrap();
    assert_eq!(out.len(), data.len());
    assert_eq!(out[36], data[36] & !0x01);
    assert_eq!(&out[..36], &data[..36]);
    assert_eq!(&out[37..], &data[37..]);
}
