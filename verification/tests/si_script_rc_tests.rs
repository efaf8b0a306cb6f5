use lib::anim_def::AnimDef;
use lib::error::Error;
use lib::events::object_motion_si_script::{self, ObjectMotionSiScript, ObjectMotionSiScriptPm};
use lib::events::object_motion_si_script_rc as rc;
use lib::model::{Quaternion, Vec3};
use lib::si_script::{ObjectMotionSiFrame, RotateData, TranslateData};

fn le32(out: &mut Vec<u8>, x: u32) {
    out.extend_from_slice(&x.to_le_bytes());
}

fn block(out: &mut Vec<u8>, first: f32) {
    for i in 0..7 {
        le32(out, (first + i as f32).to_bits());
    }
}

fn frame(out: &mut Vec<u8>, flags: u32, start: f32, end: f32) {
    le32(out, flags);
    le32(out, start.to_bits());
    le32(out, end.to_bits());
    if flags & 1 != 0 {
        block(out, 1.0);
    }
    if flags & 2 != 0 {
        block(out, 10.0);
    }
    if flags & 4 != 0 {
        block(out, 20.0);
    }
}

fn anim_def() -> AnimDef {
    AnimDef {
        name: b"anim".to_vec(),
        anim_name: b"anim_name".to_vec(),
        anim_root_name: b"root".to_vec(),
        has_callbacks: false,
        nodes: Some(vec![b"node_a".to_vec(), b"node_b".to_vec()]),
        lights: None,
        puffers: None,
        dynamic_sounds: None,
        static_sounds: None,
        effects: None,
        anim_refs: None,
    }
}

#[test]
fn rc_frames_have_short_blocks_and_no_splines() {
    let mut s = Vec::new();
    frame(&mut s, 3, 0.0, 1.0);
    frame(&mut s, 4, 1.0, 2.0);
    assert_eq!(s.len(), 12 + 28 + 28 + 12 + 28);
    let frames = rc::read_si_script_frames(&s, 2).unwrap();
    let t = frames[0].translate.as_ref().unwrap();
    assert_eq!(t.base.x, 1.0f32.to_bits());
    assert_eq!(t.garbage, 4.0f32.to_bits());
    assert_eq!(t.delta.z, 7.0f32.to_bits());
    assert!(t.spline_x.is_empty());
    let r = frames[0].rotate.as_ref().unwrap();
    assert_eq!(r.base.w, 13.0f32.to_bits());
    let c = frames[1].scale.as_ref().unwrap();
    assert_eq!(c.delta.x, 24.0f32.to_bits());
    assert_eq!(rc::size_si_script_frames(&frames), Some(s.len() as u32));
    let mut out = Vec::new();
    rc::write_si_script_frames(&frames, &mut out);
    assert_eq!(out, s);
}

#[test]
fn rc_frames_must_fill_the_data() {
    let mut s = Vec::new();
    frame(&mut s, 1, 0.0, 1.0);
    assert_eq!(rc::read_si_script_frames(&s, 2).unwrap_err(), Error::Invalid);
    s.push(0);
    assert_eq!(rc::read_si_script_frames(&s, 1).unwrap_err(), Error::Invalid);
    let mut bad = Vec::new();
    frame(&mut bad, 8, 0.0, 1.0);
    assert_eq!(rc::read_frame(&bad).unwrap_err(), Error::Invalid);
}

#[test]
fn rc_frame_splines_are_not_written() {
    let fr = ObjectMotionSiFrame {
        start_time: 0,
        end_time: 5,
        translate: Some(TranslateData {
            base: Vec3 { x: 1, y: 2, z: 3 },
            delta: Vec3 { x: 4, y: 5, z: 6 },
            garbage: 9,
            spline_x: vec![1; 16],
            spline_y: vec![2; 16],
            spline_z: vec![3; 16],
        }),
        rotate: Some(RotateData {
            base: Quaternion { x: 1, y: 2, z: 3, w: 4 },
            delta: Vec3 { x: 5, y: 6, z: 7 },
            spline_x: Vec::new(),
            spline_y: Vec::new(),
            spline_z: Vec::new(),
        }),
        scale: None,
    };
    let mut out = Vec::new();
    rc::write_frame(&fr, &mut out);
    assert_eq!(out.len(), 12 + 28 + 28);
    let (back, n) = rc::read_frame(&out).unwrap();
    assert_eq!(n, out.len());
    let t = back.translate.unwrap();
    assert_eq!(t.garbage, 9);
    assert_eq!(t.delta, Vec3 { x: 4, y: 5, z: 6 });
    assert!(t.spline_x.is_empty());
    assert_eq!(back.rotate.unwrap().base, Quaternion { x: 1, y: 2, z: 3, w: 4 });
    assert!(back.scale.is_none());
}

#[test]
fn rc_event_reads_header_and_frames() {
    let ad = anim_def();
    let mut s = Vec::new();
    le32(&mut s, 2);
    le32(&mut s, 1);
    le32(&mut s, 0);
    le32(&mut s, 0);
    le32(&mut s, 0);
    frame(&mut s, 1, 0.0, 1.0);
    let v = rc::read(&s, &ad).unwrap();
    assert_eq!(v.name, b"node_b".to_vec());
    assert_eq!(v.frames.len(), 1);
    assert_eq!(rc::size_of(&v), Some(s.len() as u32));
    let mut out = Vec::new();
    rc::write(&v, &ad, &mut out).unwrap();
    assert_eq!(out, s);
    // a script time that is not zero is refused
    let mut bad = s.clone();
    bad[8..12].copy_from_slice(&1.0f32.to_bits().to_le_bytes());
    assert_eq!(rc::read(&bad, &ad).unwrap_err(), Error::Invalid);
    // the count must match the frames
    let mut bad = s.clone();
    bad[4] = 2;
    assert_eq!(rc::read(&bad, &ad).unwrap_err(), Error::Invalid);
}

#[test]
fn rc_event_with_unknown_node_is_not_written() {
    let ad = anim_def();
    let v = ObjectMotionSiScript { name: b"nope".to_vec(), frames: Vec::new() };
    let mut out = vec![7u8];
    assert_eq!(rc::write(&v, &ad, &mut out).unwrap_err(), Error::Invalid);
    assert_eq!(out, vec![7u8]);
}

#[test]
fn pm_si_script_header_holds_an_index() {
    let ad = anim_def();
    let mut s = Vec::new();
    le32(&mut s, 1);
    le32(&mut s, 17);
    for _ in 0..4 {
        le32(&mut s, 0);
    }
    let v = object_motion_si_script::read_pm(&s, &ad).unwrap();
    assert_eq!(v.name, b"node_a".to_vec());
    assert_eq!(v.index, 17);
    let mut out = Vec::new();
    object_motion_si_script::write_pm(&v, &ad, &mut out).unwrap();
    assert_eq!(out, s);
    let mut longer = s.clone();
    longer.push(0);
    assert_eq!(object_motion_si_script::read_pm(&longer, &ad).unwrap_err(), Error::Invalid);
    let w = ObjectMotionSiScriptPm { name: b"node_c".to_vec(), index: 0 };
    assert_eq!(object_motion_si_script::write_pm(&w, &ad, &mut out).unwrap_err(), Error::Invalid);
}
