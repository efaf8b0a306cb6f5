use lib::anim_def::AnimDef;
use lib::error::Error;
use lib::events::anim_verbose::AnimVerbose;
use lib::events::control_flow::{Else, Endif};
use lib::events::fog_state::FogState;
use lib::events::named::CallSequence;
use lib::events::sound::Sound;
use lib::events::EventData;
use lib::model::{AtNode, Color, Vec3};
use lib::mw::{read_events, size_events, write_events, Event, EventStart, StartOffset};

fn names(list: &[&str]) -> Option<Vec<Vec<u8>>> {
    Some(list.iter().map(|s| s.as_bytes().to_vec()).collect())
}

fn anim_def() -> AnimDef {
    AnimDef {
        name: b"anim".to_vec(),
        anim_name: b"anim_name".to_vec(),
        anim_root_name: b"root".to_vec(),
        has_callbacks: false,
        nodes: names(&["node_a", "node_b"]),
        lights: None,
        puffers: None,
        dynamic_sounds: None,
        static_sounds: names(&["boom", "crash"]),
        effects: None,
        anim_refs: None,
    }
}

fn le16(out: &mut Vec<u8>, x: u16) {
    out.extend_from_slice(&x.to_le_bytes());
}

fn le32(out: &mut Vec<u8>, x: u32) {
    out.extend_from_slice(&x.to_le_bytes());
}

fn header(out: &mut Vec<u8>, ty: u8, offset: u8, record: u32, time: u32) {
    out.push(ty);
    out.push(offset);
    le16(out, 0);
    le32(out, 12 + record);
    le32(out, time);
}

fn sound_record(out: &mut Vec<u8>, sound: u16, node: u16, pos: [f32; 3]) {
    le16(out, sound);
    le16(out, node);
    for p in pos {
        le32(out, p.to_bits());
    }
}

fn sequence_record(out: &mut Vec<u8>, name: &str) {
    let mut n = name.as_bytes().to_vec();
    n.resize(32, 0);
    out.extend_from_slice(&n);
    le32(out, 0xFFFF_FFFF);
}

fn sample_stream() -> Vec<u8> {
    let mut s = Vec::new();
    header(&mut s, 1, 1, 16, 0);
    sound_record(&mut s, 2, 0, [0.0, 0.0, 0.0]);
    header(&mut s, 1, 2, 16, 1.5f32.to_bits());
    sound_record(&mut s, 1, 2, [1.0, 2.0, 3.0]);
    header(&mut s, 22, 3, 36, 0);
    sequence_record(&mut s, "intro");
    header(&mut s, 32, 1, 0, 2.0f32.to_bits());
    header(&mut s, 34, 1, 0, 0);
    s
}

#[test]
fn empty_stream_has_no_events() {
    let ad = anim_def();
    let evs = read_events(&[], &ad).unwrap();
    assert!(evs.is_empty());
    assert_eq!(size_events(&evs), Some(0));
    let mut out = Vec::new();
    assert_eq!(write_events(&ad, &evs, &mut out), Ok(()));
    assert!(out.is_empty());
}

#[test]
fn stream_reads_events_in_order() {
    let ad = anim_def();
    let evs = read_events(&sample_stream(), &ad).unwrap();
    assert_eq!(evs.len(), 5);
    assert!(evs[0].start.is_none());
    match &evs[0].data {
        EventData::Sound(s) => {
            assert_eq!(s.name, b"crash".to_vec());
            assert!(s.at_node.is_none());
        }
        other => panic!("unexpected {:?}", other),
    }
    assert_eq!(
        evs[1].start,
        Some(EventStart { offset: StartOffset::Sequence, time: 1.5f32.to_bits() })
    );
    match &evs[1].data {
        EventData::Sound(s) => {
            assert_eq!(s.name, b"boom".to_vec());
            let at = s.at_node.as_ref().unwrap();
            assert_eq!(at.name, b"node_b".to_vec());
            assert_eq!(at.pos.y, 2.0f32.to_bits());
        }
        other => panic!("unexpected {:?}", other),
    }
    assert_eq!(evs[2].start, Some(EventStart { offset: StartOffset::Event, time: 0 }));
    match &evs[2].data {
        EventData::CallSequence(c) => assert_eq!(c.name, b"intro".to_vec()),
        other => panic!("unexpected {:?}", other),
    }
    assert_eq!(
        evs[3].start,
        Some(EventStart { offset: StartOffset::Animation, time: 2.0f32.to_bits() })
    );
    assert!(matches!(evs[3].data, EventData::Else(_)));
    assert!(matches!(evs[4].data, EventData::Endif(_)));
}

#[test]
fn stream_read_then_written_is_unchanged() {
    let ad = anim_def();
    let s = sample_stream();
    let evs = read_events(&s, &ad).unwrap();
    assert_eq!(size_events(&evs), Some(s.len() as u32));
    let mut out = Vec::new();
    assert_eq!(write_events(&ad, &evs, &mut out), Ok(()));
    assert_eq!(out, s);
    let again = read_events(&out, &ad).unwrap();
    assert_eq!(again.len(), evs.len());
}

#[test]
fn written_events_read_back() {
    let ad = anim_def();
    let evs = vec![
        Event {
            start: Some(EventStart { offset: StartOffset::Animation, time: 0.25f32.to_bits() }),
            data: EventData::Sound(Sound {
                name: b"boom".to_vec(),
                at_node: Some(AtNode {
                    name: b"node_a".to_vec(),
                    pos: Vec3 { x: 0, y: 0, z: 1.0f32.to_bits() },
                }),
            }),
        },
        Event { start: None, data: EventData::Else(Else {}) },
        Event {
            start: None,
            data: EventData::CallSequence(CallSequence { name: b"outro".to_vec() }),
        },
        Event { start: None, data: EventData::Endif(Endif {}) },
    ];
    let mut out = Vec::new();
    assert_eq!(write_events(&ad, &evs, &mut out), Ok(()));
    assert_eq!(out.len(), 12 + 16 + 12 + 12 + 36 + 12);
    assert_eq!(size_events(&evs), Some(out.len() as u32));
    // an event without a start is written as starting at the animation
    assert_eq!(out[29], 1);
    let back = read_events(&out, &ad).unwrap();
    assert_eq!(back.len(), 4);
    assert_eq!(back[0].start, evs[0].start);
    match &back[2].data {
        EventData::CallSequence(c) => assert_eq!(c.name, b"outro".to_vec()),
        other => panic!("unexpected {:?}", other),
    }
}

#[test]
fn start_at_animation_zero_reads_as_no_start() {
    let ad = anim_def();
    let mut s = Vec::new();
    header(&mut s, 34, 1, 0, 0x8000_0000);
    let evs = read_events(&s, &ad).unwrap();
    assert!(evs[0].start.is_none());
}

#[test]
fn bad_start_offset_is_refused() {
    let ad = anim_def();
    for offset in [0u8, 4, 255] {
        let mut s = Vec::new();
        header(&mut s, 34, offset, 0, 0);
        assert!(matches!(read_events(&s, &ad), Err(Error::Invalid)));
    }
}

#[test]
fn header_padding_must_be_zero() {
    let ad = anim_def();
    let mut s = Vec::new();
    header(&mut s, 34, 1, 0, 0);
    s[2] = 1;
    assert!(matches!(read_events(&s, &ad), Err(Error::Invalid)));
}

#[test]
fn header_size_below_header_is_refused() {
    let ad = anim_def();
    let mut s = Vec::new();
    s.push(34);
    s.push(1);
    le16(&mut s, 0);
    le32(&mut s, 11);
    le32(&mut s, 0);
    assert!(matches!(read_events(&s, &ad), Err(Error::Invalid)));
}

#[test]
fn truncated_stream_is_refused() {
    let ad = anim_def();
    let s = sample_stream();
    assert!(matches!(read_events(&s[..s.len() - 1], &ad), Err(Error::Invalid)));
    assert!(matches!(read_events(&s[..5], &ad), Err(Error::Invalid)));
    let mut longer = s.clone();
    longer.push(0);
    assert!(matches!(read_events(&longer, &ad), Err(Error::Invalid)));
}

#[test]
fn unknown_event_type_is_refused() {
    let ad = anim_def();
    let mut s = Vec::new();
    header(&mut s, 200, 1, 0, 0);
    assert!(matches!(read_events(&s, &ad), Err(Error::Invalid)));
}

#[test]
fn events_of_other_games_are_refused_on_read() {
    let ad = anim_def();
    let mut s = Vec::new();
    header(&mut s, 39, 1, 4, 0);
    le32(&mut s, 1);
    assert!(matches!(read_events(&s, &ad), Err(Error::Invalid)));
}

#[test]
fn events_of_other_games_can_be_written() {
    let ad = anim_def();
    let evs = vec![Event { start: None, data: EventData::AnimVerbose(AnimVerbose { on: true }) }];
    assert_eq!(size_events(&evs), Some(16));
    let mut out = Vec::new();
    assert_eq!(write_events(&ad, &evs, &mut out), Ok(()));
    assert_eq!(out, vec![39, 1, 0, 0, 16, 0, 0, 0, 0, 0, 0, 0, 1, 0, 0, 0]);
}

#[test]
fn record_of_wrong_size_is_refused() {
    let ad = anim_def();
    let mut s = Vec::new();
    header(&mut s, 1, 1, 17, 0);
    sound_record(&mut s, 1, 0, [0.0, 0.0, 0.0]);
    s.push(0);
    assert!(matches!(read_events(&s, &ad), Err(Error::Invalid)));
}

#[test]
fn writing_unknown_name_fails_after_its_header() {
    let ad = anim_def();
    let evs = vec![Event {
        start: None,
        data: EventData::Sound(Sound { name: b"missing".to_vec(), at_node: None }),
    }];
    let mut out = vec![9u8];
    assert_eq!(write_events(&ad, &evs, &mut out), Err(Error::Invalid));
    assert_eq!(out, vec![9u8, 1, 1, 0, 0, 28, 0, 0, 0, 0, 0, 0, 0]);
}

#[test]
fn events_before_a_failing_one_stay_written() {
    let ad = anim_def();
    let sound = |name: &[u8]| Event {
        start: None,
        data: EventData::Sound(Sound { name: name.to_vec(), at_node: None }),
    };
    let mut whole = Vec::new();
    assert_eq!(write_events(&ad, &vec![sound(b"crash")], &mut whole), Ok(()));
    assert_eq!(whole.len(), 28);
    let mut out = Vec::new();
    assert_eq!(
        write_events(&ad, &vec![sound(b"crash"), sound(b"missing")], &mut out),
        Err(Error::Invalid)
    );
    assert_eq!(out.len(), 28 + 12);
    assert_eq!(&out[..28], &whole[..]);
    assert_eq!(&out[28..], &[1, 1, 0, 0, 28, 0, 0, 0, 0, 0, 0, 0]);
}

#[test]
fn written_stream_has_the_announced_size() {
    let ad = anim_def();
    let evs = vec![
        Event { start: None, data: EventData::AnimVerbose(AnimVerbose { on: true }) },
        Event {
            start: None,
            data: EventData::FogState(FogState {
                type_: None,
                color: Some(Color { r: 5.0f32.to_bits(), g: 0, b: 0 }),
                altitude: None,
                range: None,
            }),
        },
    ];
    let mut out = Vec::new();
    assert_eq!(write_events(&ad, &evs, &mut out), Ok(()));
    assert_eq!(out.len(), 12 + 4 + 12 + 68);
    assert_eq!(size_events(&evs), Some(out.len() as u32));
    // the header of each event holds the size of its header and record
    assert_eq!(&out[4..8], &16u32.to_le_bytes());
    assert_eq!(&out[20..24], &80u32.to_le_bytes());
    // neither event reads back
    assert!(read_events(&out, &ad).is_err());
}
