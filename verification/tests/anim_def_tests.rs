use lib::anim_def::{AnimDef, Index};
use lib::error::Error;

fn names(list: &[&str]) -> Option<Vec<Vec<u8>>> {
    Some(list.iter().map(|s| s.as_bytes().to_vec()).collect())
}

fn anim_def() -> AnimDef {
    AnimDef {
        name: b"anim".to_vec(),
        anim_name: b"anim_name".to_vec(),
        anim_root_name: b"root".to_vec(),
        has_callbacks: false,
        nodes: names(&["node_a", "node_b", "node_a"]),
        lights: names(&["light"]),
        puffers: names(&["puffer"]),
        dynamic_sounds: names(&["dyn"]),
        static_sounds: names(&["stc_a", "stc_b"]),
        effects: None,
        anim_refs: names(&["ref0", "ref1"]),
    }
}

#[test]
fn index_to_usize_keeps_nonnegative() {
    assert_eq!(Index(0).to_usize(), Some(0));
    assert_eq!(Index(7).to_usize(), Some(7));
    assert_eq!(Index(i16::MAX).to_usize(), Some(32767));
}

#[test]
fn index_to_usize_refuses_negative() {
    assert_eq!(Index(-1).to_usize(), None);
    assert_eq!(Index(i16::MIN).to_usize(), None);
}

#[test]
fn index_from_usize_bounds() {
    assert_eq!(Index::from_usize(0).map(|i| i.0), Some(0));
    assert_eq!(Index::from_usize(32767).map(|i| i.0), Some(32767));
    assert_eq!(Index::from_usize(32768).map(|i| i.0), None);
    assert_eq!(Index::from_usize(usize::MAX).map(|i| i.0), None);
}

#[test]
fn node_from_index_is_one_based() {
    let ad = anim_def();
    assert_eq!(ad.node_from_index(1), Ok(b"node_a".to_vec()));
    assert_eq!(ad.node_from_index(2), Ok(b"node_b".to_vec()));
    assert_eq!(ad.node_from_index(3), Ok(b"node_a".to_vec()));
}

#[test]
fn node_from_index_refuses_zero_past_end_and_negative() {
    let ad = anim_def();
    assert_eq!(ad.node_from_index(0), Err(Error::Invalid));
    assert_eq!(ad.node_from_index(4), Err(Error::Invalid));
    assert_eq!(ad.node_from_index(0xFFFF_FFFF), Err(Error::Invalid));
    assert_eq!(ad.node_from_index(0x8000), Err(Error::Invalid));
}

#[test]
fn lookup_without_list_fails() {
    let ad = anim_def();
    assert_eq!(ad.effect_from_index(1), Err(Error::Invalid));
    assert_eq!(ad.effect_to_index(&b"effect".to_vec()), Err(Error::Invalid));
}

#[test]
fn node_to_index_gives_first_position() {
    let ad = anim_def();
    assert_eq!(ad.node_to_index(&b"node_a".to_vec()), Ok(1));
    assert_eq!(ad.node_to_index(&b"node_b".to_vec()), Ok(2));
}

#[test]
fn node_to_index_missing_name() {
    let ad = anim_def();
    assert_eq!(ad.node_to_index(&b"node_c".to_vec()), Err(Error::Invalid));
}

#[test]
fn sound_lists_are_separate() {
    let ad = anim_def();
    assert_eq!(ad.stc_sound_from_index(2), Ok(b"stc_b".to_vec()));
    assert_eq!(ad.stc_sound_to_index(&b"stc_b".to_vec()), Ok(2));
    assert_eq!(ad.dyn_sound_from_index(1), Ok(b"dyn".to_vec()));
    assert_eq!(ad.dyn_sound_from_index(2), Err(Error::Invalid));
    assert_eq!(ad.light_to_index(&b"light".to_vec()), Ok(1));
    assert_eq!(ad.puffer_from_index(1), Ok(b"puffer".to_vec()));
}

#[test]
fn anim_ref_validate_index_cases() {
    let ad = anim_def();
    assert_eq!(ad.anim_ref_validate_index(0), Ok(0));
    assert_eq!(ad.anim_ref_validate_index(1), Ok(1));
    assert_eq!(ad.anim_ref_validate_index(2), Err(Error::Invalid));
    assert_eq!(ad.anim_ref_validate_index(-1), Err(Error::Invalid));
    let mut none = anim_def();
    none.anim_refs = None;
    assert_eq!(none.anim_ref_validate_index(0), Err(Error::Invalid));
}
