use lib::error::Error;
use lib::model::{Quaternion, Vec3};
use lib::si_script::{
    read_frame, read_si_script_frames, size_si_script_frames, write_frame,
    write_si_script_frames, ObjectMotionSiFrame, RotateData, ScaleData, TranslateData,
};

fn le32(out: &mut Vec<u8>, x: u32) {
    out.extend_from_slice(&x.to_le_bytes());
}

fn block(out: &mut Vec<u8>, first: f32) {
    for i in 0..7 {
        le32(out, (first + i as f32).to_bits());
    }
    for k in 0..48u8 {
        out.push(k);
    }
}

fn frame(out: &mut Vec<u8>, flags: u32, start: f32, end: f32) {
    le32(out, flags);
    le32(out, start.to_bits());
    le32(out, end.to_bits());
    if flags & 1 != 0 {
        block(out, 1.0);
    }
    if flags & 2 != 0 {
        block(out, 10.0);
    }
    if flags & 4 != 0 {
        block(out, 20.0);
    }
}

fn spline(k: u8) -> Vec<u8> {
    (k..k + 16).collect()
}

#[test]
fn frames_read_their_parts() {
    let mut s = Vec::new();
    frame(&mut s, 1, 0.0, 1.0);
    frame(&mut s, 6, 1.0, 2.0);
    let frames = read_si_script_frames(&s, 2).unwrap();
    assert_eq!(frames.len(), 2);
    let t = frames[0].translate.as_ref().unwrap();
    assert_eq!(t.base.x, 1.0f32.to_bits());
    assert_eq!(t.garbage, 4.0f32.to_bits());
    assert_eq!(t.delta.z, 7.0f32.to_bits());
    assert_eq!(t.spline_y, spline(16));
    assert!(frames[0].rotate.is_none());
    let r = frames[1].rotate.as_ref().unwrap();
    assert_eq!(r.base.w, 13.0f32.to_bits());
    let c = frames[1].scale.as_ref().unwrap();
    assert_eq!(c.base.y, 21.0f32.to_bits());
    assert_eq!(frames[1].start_time, 1.0f32.to_bits());
    assert_eq!(frames[1].end_time, 2.0f32.to_bits());
}

#[test]
fn frames_written_back_are_unchanged() {
    let mut s = Vec::new();
    frame(&mut s, 7, 0.0, 0.5);
    frame(&mut s, 0, 0.5, 1.0);
    frame(&mut s, 5, 1.0, 1.5);
    let frames = read_si_script_frames(&s, 3).unwrap();
    assert_eq!(size_si_script_frames(&frames), Some(s.len() as u32));
    let mut out = Vec::new();
    assert_eq!(write_si_script_frames(&frames, &mut out), Ok(()));
    assert_eq!(out, s);
}

#[test]
fn frames_must_fill_the_data() {
    let mut s = Vec::new();
    frame(&mut s, 1, 0.0, 1.0);
    assert!(matches!(read_si_script_frames(&s, 2), Err(Error::Invalid)));
    assert!(matches!(read_si_script_frames(&s, 0), Err(Error::Invalid)));
    s.push(0);
    assert!(matches!(read_si_script_frames(&s, 1), Err(Error::Invalid)));
    assert!(read_si_script_frames(&[], 0).unwrap().is_empty());
}

#[test]
fn frame_with_unknown_flag_is_refused() {
    let mut s = Vec::new();
    frame(&mut s, 8, 0.0, 1.0);
    assert!(matches!(read_frame(&s), Err(Error::Invalid)));
    assert!(matches!(read_frame(&s[..11]), Err(Error::Invalid)));
}

#[test]
fn read_frame_gives_its_size() {
    let mut s = Vec::new();
    frame(&mut s, 3, 0.0, 1.0);
    frame(&mut s, 0, 0.0, 1.0);
    let (f, n) = read_frame(&s).unwrap();
    assert_eq!(n, 12 + 2 * 76);
    assert!(f.translate.is_some() && f.rotate.is_some() && f.scale.is_none());
}

#[test]
fn written_frame_reads_back() {
    let fr = ObjectMotionSiFrame {
        start_time: 0,
        end_time: 1.0f32.to_bits(),
        translate: None,
        rotate: Some(RotateData {
            base: Quaternion { x: 1, y: 2, z: 3, w: 4 },
            delta: Vec3 { x: 5, y: 6, z: 7 },
            spline_x: spline(0),
            spline_y: spline(1),
            spline_z: spline(2),
        }),
        scale: Some(ScaleData {
            base: Vec3 { x: 8, y: 9, z: 10 },
            delta: Vec3 { x: 11, y: 12, z: 13 },
            garbage: 99,
            spline_x: spline(3),
            spline_y: spline(4),
            spline_z: spline(5),
        }),
    };
    let mut out = Vec::new();
    assert_eq!(write_frame(&fr, &mut out), Ok(()));
    assert_eq!(out.len(), 12 + 2 * 76);
    assert_eq!(&out[0..4], &[6, 0, 0, 0]);
    let (back, n) = read_frame(&out).unwrap();
    assert_eq!(n, out.len());
    let s = back.scale.unwrap();
    assert_eq!(s.garbage, 99);
    assert_eq!(s.spline_z, spline(5));
}

#[test]
fn frame_with_short_spline_is_not_written() {
    let fr = ObjectMotionSiFrame {
        start_time: 0,
        end_time: 0,
        translate: Some(TranslateData {
            base: Vec3 { x: 0, y: 0, z: 0 },
            delta: Vec3 { x: 0, y: 0, z: 0 },
            garbage: 0,
            spline_x: vec![0; 15],
            spline_y: spline(0),
            spline_z: spline(0),
        }),
        rotate: None,
        scale: None,
    };
    let mut out = vec![1u8];
    assert_eq!(write_frame(&fr, &mut out), Err(Error::Invalid));
    assert_eq!(out, vec![1u8]);
    let frames = vec![fr];
    assert_eq!(write_si_script_frames(&frames, &mut out), Err(Error::Invalid));
    assert_eq!(out, vec![1u8]);
}
