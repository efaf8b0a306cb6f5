//! The events of an animation, one module per event type, and the dispatch
//! from an event type to the module that reads and writes its record.
pub mod anim_verbose;
pub mod call_animation;
pub mod call_object_connector;
pub mod callback;
pub mod camera_from_to;
pub mod camera_state;
pub mod control_flow;
pub mod detonate_weapon;
pub mod effect;
pub mod fbfx_color_from_to;
pub mod fbfx_csinwave_from_to;
pub mod fog_state;
pub mod light_animation;
pub mod light_state;
pub mod loop_event;
pub mod named;
pub mod object_active_state;
pub mod object_connector;
pub mod object_cycle_texture;
pub mod object_delete_child;
pub mod object_motion;
pub mod object_motion_from_to;
pub mod object_motion_pg;
pub mod object_motion_si_script;
pub mod object_motion_si_script_rc;
pub mod object_opacity_from_to;
pub mod object_opacity_state;
pub mod object_rotate_state;
pub mod object_scale_state;
pub mod object_translate_state;
pub mod puffer_state;
pub mod sound;
pub mod sound_node;

use vstd::prelude::*;
use crate::anim_def::{AnimDef, AnimDefV};
use crate::error::Error;
use self::sound::Sound;
use self::sound_node::SoundNode;
use self::effect::Effect;
use self::light_animation::LightAnimation;
use self::object_active_state::ObjectActiveState;
use self::object_translate_state::ObjectTranslateState;
use self::object_scale_state::ObjectScaleState;
use self::object_rotate_state::ObjectRotateState;
use self::object_motion::ObjectMotion;
use self::object_motion_from_to::ObjectMotionFromTo;
use self::object_motion_si_script::ObjectMotionSiScript;
use self::object_opacity_state::ObjectOpacityState;
use self::object_opacity_from_to::ObjectOpacityFromTo;
use self::object_delete_child::ObjectDeleteChild;
use self::object_cycle_texture::ObjectCycleTexture;
use self::object_connector::ObjectConnector;
use self::call_object_connector::CallObjectConnector;
use self::camera_state::CameraState;
use self::camera_from_to::CameraFromTo;
use self::named::CallSequence;
use self::named::StopSequence;
use self::call_animation::CallAnimation;
use self::named::StopAnimation;
use self::named::ResetAnimation;
use self::named::InvalidateAnimation;
use self::fog_state::FogState;
use self::loop_event::Loop;
use self::control_flow::If;
use self::control_flow::Else;
use self::control_flow::Elseif;
use self::control_flow::Endif;
use self::callback::Callback;
use self::fbfx_color_from_to::FbfxColorFromTo;
use self::fbfx_csinwave_from_to::FbfxCsinwaveFromTo;
use self::anim_verbose::AnimVerbose;
use self::detonate_weapon::DetonateWeapon;
use self::puffer_state::PufferState;

verus! {

/// The data of an event, by type.
#[derive(Debug)]
pub enum EventData {
    Sound(Sound<Vec<u8>>),
    SoundNode(SoundNode<Vec<u8>>),
    Effect(Effect<Vec<u8>>),
    LightAnimation(LightAnimation<Vec<u8>>),
    ObjectActiveState(ObjectActiveState<Vec<u8>>),
    ObjectTranslateState(ObjectTranslateState<Vec<u8>>),
    ObjectScaleState(ObjectScaleState<Vec<u8>>),
    ObjectRotateState(ObjectRotateState<Vec<u8>>),
    ObjectMotion(ObjectMotion<Vec<u8>>),
    ObjectMotionFromTo(ObjectMotionFromTo<Vec<u8>>),
    ObjectMotionSiScript(ObjectMotionSiScript),
    ObjectOpacityState(ObjectOpacityState<Vec<u8>>),
    ObjectOpacityFromTo(ObjectOpacityFromTo<Vec<u8>>),
    ObjectDeleteChild(ObjectDeleteChild<Vec<u8>>),
    ObjectCycleTexture(ObjectCycleTexture<Vec<u8>>),
    ObjectConnector(ObjectConnector<Vec<u8>>),
    CallObjectConnector(CallObjectConnector<Vec<u8>>),
    CameraState(CameraState<Vec<u8>>),
    CameraFromTo(CameraFromTo<Vec<u8>>),
    CallSequence(CallSequence<Vec<u8>>),
    StopSequence(StopSequence<Vec<u8>>),
    CallAnimation(CallAnimation<Vec<u8>>),
    StopAnimation(StopAnimation<Vec<u8>>),
    ResetAnimation(ResetAnimation<Vec<u8>>),
    InvalidateAnimation(InvalidateAnimation<Vec<u8>>),
    FogState(FogState),
    Loop(Loop),
    If(If),
    Else(Else),
    Elseif(Elseif),
    Endif(Endif),
    Callback(Callback),
    FbfxColorFromTo(FbfxColorFromTo),
    FbfxCsinwaveFromTo(FbfxCsinwaveFromTo<Vec<u8>>),
    AnimVerbose(AnimVerbose),
    DetonateWeapon(DetonateWeapon<Vec<u8>>),
    PufferState(PufferState),
}

/// The data of an event, as Verus sees it.
pub enum EventDataV {
    Sound(Sound<Seq<u8>>),
    SoundNode(SoundNode<Seq<u8>>),
    Effect(Effect<Seq<u8>>),
    LightAnimation(LightAnimation<Seq<u8>>),
    ObjectActiveState(ObjectActiveState<Seq<u8>>),
    ObjectTranslateState(ObjectTranslateState<Seq<u8>>),
    ObjectScaleState(ObjectScaleState<Seq<u8>>),
    ObjectRotateState(ObjectRotateState<Seq<u8>>),
    ObjectMotion(ObjectMotion<Seq<u8>>),
    ObjectMotionFromTo(ObjectMotionFromTo<Seq<u8>>),
    ObjectMotionSiScript(object_motion_si_script::ObjectMotionSiScriptV),
    ObjectOpacityState(ObjectOpacityState<Seq<u8>>),
    ObjectOpacityFromTo(ObjectOpacityFromTo<Seq<u8>>),
    ObjectDeleteChild(ObjectDeleteChild<Seq<u8>>),
    ObjectCycleTexture(ObjectCycleTexture<Seq<u8>>),
    ObjectConnector(ObjectConnector<Seq<u8>>),
    CallObjectConnector(CallObjectConnector<Seq<u8>>),
    CameraState(CameraState<Seq<u8>>),
    CameraFromTo(CameraFromTo<Seq<u8>>),
    CallSequence(CallSequence<Seq<u8>>),
    StopSequence(StopSequence<Seq<u8>>),
    CallAnimation(CallAnimation<Seq<u8>>),
    StopAnimation(StopAnimation<Seq<u8>>),
    ResetAnimation(ResetAnimation<Seq<u8>>),
    InvalidateAnimation(InvalidateAnimation<Seq<u8>>),
    FogState(FogState),
    Loop(Loop),
    If(If),
    Else(Else),
    Elseif(Elseif),
    Endif(Endif),
    Callback(Callback),
    FbfxColorFromTo(FbfxColorFromTo),
    FbfxCsinwaveFromTo(FbfxCsinwaveFromTo<Seq<u8>>),
    AnimVerbose(AnimVerbose),
    DetonateWeapon(DetonateWeapon<Seq<u8>>),
    PufferState(puffer_state::PufferStateV),
}

impl DeepView for EventData {
    type V = EventDataV;

    open spec fn deep_view(&self) -> EventDataV {
        match self {
            EventData::Sound(v) => EventDataV::Sound(v.deep_view()),
            EventData::SoundNode(v) => EventDataV::SoundNode(v.deep_view()),
            EventData::Effect(v) => EventDataV::Effect(v.deep_view()),
            EventData::LightAnimation(v) => EventDataV::LightAnimation(v.deep_view()),
            EventData::ObjectActiveState(v) => EventDataV::ObjectActiveState(v.deep_view()),
            EventData::ObjectTranslateState(v) => EventDataV::ObjectTranslateState(v.deep_view()),
            EventData::ObjectScaleState(v) => EventDataV::ObjectScaleState(v.deep_view()),
            EventData::ObjectRotateState(v) => EventDataV::ObjectRotateState(v.deep_view()),
            EventData::ObjectMotion(v) => EventDataV::ObjectMotion(v.deep_view()),
            EventData::ObjectMotionFromTo(v) => EventDataV::ObjectMotionFromTo(v.deep_view()),
            EventData::ObjectMotionSiScript(v) => EventDataV::ObjectMotionSiScript(v.deep_view()),
            EventData::ObjectOpacityState(v) => EventDataV::ObjectOpacityState(v.deep_view()),
            EventData::ObjectOpacityFromTo(v) => EventDataV::ObjectOpacityFromTo(v.deep_view()),
            EventData::ObjectDeleteChild(v) => EventDataV::ObjectDeleteChild(v.deep_view()),
            EventData::ObjectCycleTexture(v) => EventDataV::ObjectCycleTexture(v.deep_view()),
            EventData::ObjectConnector(v) => EventDataV::ObjectConnector(v.deep_view()),
            EventData::CallObjectConnector(v) => EventDataV::CallObjectConnector(v.deep_view()),
            EventData::CameraState(v) => EventDataV::CameraState(v.deep_view()),
            EventData::CameraFromTo(v) => EventDataV::CameraFromTo(v.deep_view()),
            EventData::CallSequence(v) => EventDataV::CallSequence(v.deep_view()),
            EventData::StopSequence(v) => EventDataV::StopSequence(v.deep_view()),
            EventData::CallAnimation(v) => EventDataV::CallAnimation(v.deep_view()),
            EventData::StopAnimation(v) => EventDataV::StopAnimation(v.deep_view()),
            EventData::ResetAnimation(v) => EventDataV::ResetAnimation(v.deep_view()),
            EventData::InvalidateAnimation(v) => EventDataV::InvalidateAnimation(v.deep_view()),
            EventData::FogState(v) => EventDataV::FogState(v.deep_view()),
            EventData::Loop(v) => EventDataV::Loop(v.deep_view()),
            EventData::If(v) => EventDataV::If(v.deep_view()),
            EventData::Else(v) => EventDataV::Else(v.deep_view()),
            EventData::Elseif(v) => EventDataV::Elseif(v.deep_view()),
            EventData::Endif(v) => EventDataV::Endif(v.deep_view()),
            EventData::Callback(v) => EventDataV::Callback(v.deep_view()),
            EventData::FbfxColorFromTo(v) => EventDataV::FbfxColorFromTo(v.deep_view()),
            EventData::FbfxCsinwaveFromTo(v) => EventDataV::FbfxCsinwaveFromTo(v.deep_view()),
            EventData::AnimVerbose(v) => EventDataV::AnimVerbose(v.deep_view()),
            EventData::DetonateWeapon(v) => EventDataV::DetonateWeapon(v.deep_view()),
            EventData::PufferState(v) => EventDataV::PufferState(v.deep_view()),
        }
    }
}

/// The type byte of an event.
#[verifier::opaque]
pub open spec fn type_of(d: EventDataV) -> u8 {
    match d {
        EventDataV::Sound(_) => 1,
        EventDataV::SoundNode(_) => 2,
        EventDataV::Effect(_) => 3,
        EventDataV::LightAnimation(_) => 5,
        EventDataV::ObjectActiveState(_) => 6,
        EventDataV::ObjectTranslateState(_) => 7,
        EventDataV::ObjectScaleState(_) => 8,
        EventDataV::ObjectRotateState(_) => 9,
        EventDataV::ObjectMotion(_) => 10,
        EventDataV::ObjectMotionFromTo(_) => 11,
        EventDataV::ObjectMotionSiScript(_) => 12,
        EventDataV::ObjectOpacityState(_) => 13,
        EventDataV::ObjectOpacityFromTo(_) => 14,
        EventDataV::ObjectDeleteChild(_) => 16,
        EventDataV::ObjectCycleTexture(_) => 17,
        EventDataV::ObjectConnector(_) => 18,
        EventDataV::CallObjectConnector(_) => 19,
        EventDataV::CameraState(_) => 20,
        EventDataV::CameraFromTo(_) => 21,
        EventDataV::CallSequence(_) => 22,
        EventDataV::StopSequence(_) => 23,
        EventDataV::CallAnimation(_) => 24,
        EventDataV::StopAnimation(_) => 25,
        EventDataV::ResetAnimation(_) => 26,
        EventDataV::InvalidateAnimation(_) => 27,
        EventDataV::FogState(_) => 28,
        EventDataV::Loop(_) => 30,
        EventDataV::If(_) => 31,
        EventDataV::Else(_) => 32,
        EventDataV::Elseif(_) => 33,
        EventDataV::Endif(_) => 34,
        EventDataV::Callback(_) => 35,
        EventDataV::FbfxColorFromTo(_) => 36,
        EventDataV::FbfxCsinwaveFromTo(_) => 37,
        EventDataV::AnimVerbose(_) => 39,
        EventDataV::DetonateWeapon(_) => 41,
        EventDataV::PufferState(_) => 42,
    }
}

/// The size of the record of an event.
#[verifier::opaque]
pub open spec fn data_size(d: EventDataV) -> nat {
    match d {
        EventDataV::Sound(v) => sound::SIZE as nat,
        EventDataV::SoundNode(v) => sound_node::SIZE as nat,
        EventDataV::Effect(v) => effect::SIZE as nat,
        EventDataV::LightAnimation(v) => light_animation::SIZE as nat,
        EventDataV::ObjectActiveState(v) => object_active_state::SIZE as nat,
        EventDataV::ObjectTranslateState(v) => object_translate_state::SIZE as nat,
        EventDataV::ObjectScaleState(v) => object_scale_state::SIZE as nat,
        EventDataV::ObjectRotateState(v) => object_rotate_state::SIZE as nat,
        EventDataV::ObjectMotion(v) => object_motion::SIZE as nat,
        EventDataV::ObjectMotionFromTo(v) => object_motion_from_to::SIZE as nat,
        EventDataV::ObjectMotionSiScript(v) => object_motion_si_script::data_size(v),
        EventDataV::ObjectOpacityState(v) => object_opacity_state::SIZE as nat,
        EventDataV::ObjectOpacityFromTo(v) => object_opacity_from_to::SIZE as nat,
        EventDataV::ObjectDeleteChild(v) => object_delete_child::SIZE as nat,
        EventDataV::ObjectCycleTexture(v) => object_cycle_texture::SIZE as nat,
        EventDataV::ObjectConnector(v) => object_connector::SIZE as nat,
        EventDataV::CallObjectConnector(v) => call_object_connector::SIZE as nat,
        EventDataV::CameraState(v) => camera_state::SIZE as nat,
        EventDataV::CameraFromTo(v) => camera_from_to::SIZE as nat,
        EventDataV::CallSequence(v) => named::SIZE as nat,
        EventDataV::StopSequence(v) => named::SIZE as nat,
        EventDataV::CallAnimation(v) => call_animation::SIZE as nat,
        EventDataV::StopAnimation(v) => named::SIZE as nat,
        EventDataV::ResetAnimation(v) => named::SIZE as nat,
        EventDataV::InvalidateAnimation(v) => named::SIZE as nat,
        EventDataV::FogState(v) => fog_state::SIZE as nat,
        EventDataV::Loop(v) => loop_event::SIZE as nat,
        EventDataV::If(v) => control_flow::SIZE as nat,
        EventDataV::Else(v) => control_flow::EMPTY_SIZE as nat,
        EventDataV::Elseif(v) => control_flow::SIZE as nat,
        EventDataV::Endif(v) => control_flow::EMPTY_SIZE as nat,
        EventDataV::Callback(v) => callback::SIZE as nat,
        EventDataV::FbfxColorFromTo(v) => fbfx_color_from_to::SIZE as nat,
        EventDataV::FbfxCsinwaveFromTo(v) => fbfx_csinwave_from_to::SIZE as nat,
        EventDataV::AnimVerbose(v) => anim_verbose::SIZE as nat,
        EventDataV::DetonateWeapon(v) => detonate_weapon::SIZE as nat,
        EventDataV::PufferState(v) => puffer_state::SIZE as nat,
    }
}

/// The event of the given type that a record holds, if it holds one.
/// Events that only the other games read (`FBFX_CSINWAVE_FROM_TO` and
/// `ANIM_VERBOSE`) are refused, though they can be written. So are
/// `LIGHT_STATE` (4) and `OBJECT_ADD_CHILD` (15), whose MechWarrior 3
/// records this library does not know.
#[verifier::opaque]
pub open spec fn parse_data(ad: AnimDefV, ty: u8, s: Seq<u8>) -> Option<EventDataV> {
    if ty == 1 {
        match sound::parse(ad, s) {
            Some(v) => Some(EventDataV::Sound(v)),
            None => None,
        }
    } else if ty == 2 {
        match sound_node::parse(ad, s) {
            Some(v) => Some(EventDataV::SoundNode(v)),
            None => None,
        }
    } else if ty == 3 {
        match effect::parse(ad, s) {
            Some(v) => Some(EventDataV::Effect(v)),
            None => None,
        }
    } else if ty == 5 {
        match light_animation::parse(ad, s) {
            Some(v) => Some(EventDataV::LightAnimation(v)),
            None => None,
        }
    } else if ty == 6 {
        match object_active_state::parse(ad, s) {
            Some(v) => Some(EventDataV::ObjectActiveState(v)),
            None => None,
        }
    } else if ty == 7 {
        match object_translate_state::parse(ad, s) {
            Some(v) => Some(EventDataV::ObjectTranslateState(v)),
            None => None,
        }
    } else if ty == 8 {
        match object_scale_state::parse(ad, s) {
            Some(v) => Some(EventDataV::ObjectScaleState(v)),
            None => None,
        }
    } else if ty == 9 {
        match object_rotate_state::parse(ad, s) {
            Some(v) => Some(EventDataV::ObjectRotateState(v)),
            None => None,
        }
    } else if ty == 10 {
        match object_motion::parse(ad, s) {
            Some(v) => Some(EventDataV::ObjectMotion(v)),
            None => None,
        }
    } else if ty == 11 {
        match object_motion_from_to::parse(ad, s) {
            Some(v) => Some(EventDataV::ObjectMotionFromTo(v)),
            None => None,
        }
    } else if ty == 12 {
        match object_motion_si_script::parse(ad, s) {
            Some(v) => Some(EventDataV::ObjectMotionSiScript(v)),
            None => None,
        }
    } else if ty == 13 {
        match object_opacity_state::parse(ad, s) {
            Some(v) => Some(EventDataV::ObjectOpacityState(v)),
            None => None,
        }
    } else if ty == 14 {
        match object_opacity_from_to::parse(ad, s) {
            Some(v) => Some(EventDataV::ObjectOpacityFromTo(v)),
            None => None,
        }
    } else if ty == 16 {
        match object_delete_child::parse(ad, s) {
            Some(v) => Some(EventDataV::ObjectDeleteChild(v)),
            None => None,
        }
    } else if ty == 17 {
        match object_cycle_texture::parse(ad, s) {
            Some(v) => Some(EventDataV::ObjectCycleTexture(v)),
            None => None,
        }
    } else if ty == 18 {
        match object_connector::parse(ad, s) {
            Some(v) => Some(EventDataV::ObjectConnector(v)),
            None => None,
        }
    } else if ty == 19 {
        match call_object_connector::parse(ad, s) {
            Some(v) => Some(EventDataV::CallObjectConnector(v)),
            None => None,
        }
    } else if ty == 20 {
        match camera_state::parse(ad, s) {
            Some(v) => Some(EventDataV::CameraState(v)),
            None => None,
        }
    } else if ty == 21 {
        match camera_from_to::parse(ad, s) {
            Some(v) => Some(EventDataV::CameraFromTo(v)),
            None => None,
        }
    } else if ty == 22 {
        match named::parse(s, named::SEQUENCE_INDEX) {
            Some(n) => Some(EventDataV::CallSequence(CallSequence { name: n })),
            None => None,
        }
    } else if ty == 23 {
        match named::parse(s, named::SEQUENCE_INDEX) {
            Some(n) => Some(EventDataV::StopSequence(StopSequence { name: n })),
            None => None,
        }
    } else if ty == 24 {
        match call_animation::parse(ad, s) {
            Some(v) => Some(EventDataV::CallAnimation(v)),
            None => None,
        }
    } else if ty == 25 {
        match named::parse(s, named::ANIMATION_INDEX) {
            Some(n) => Some(EventDataV::StopAnimation(StopAnimation { name: n })),
            None => None,
        }
    } else if ty == 26 {
        match named::parse(s, named::ANIMATION_INDEX) {
            Some(n) => Some(EventDataV::ResetAnimation(ResetAnimation { name: n })),
            None => None,
        }
    } else if ty == 27 {
        match named::parse(s, named::ANIMATION_INDEX) {
            Some(n) => Some(EventDataV::InvalidateAnimation(InvalidateAnimation { name: n })),
            None => None,
        }
    } else if ty == 28 {
        match fog_state::parse(ad, s) {
            Some(v) => Some(EventDataV::FogState(v)),
            None => None,
        }
    } else if ty == 30 {
        match loop_event::parse(ad, s) {
            Some(v) => Some(EventDataV::Loop(v)),
            None => None,
        }
    } else if ty == 31 {
        match control_flow::parse_if(s) {
            Some(v) => Some(EventDataV::If(v)),
            None => None,
        }
    } else if ty == 32 {
        match control_flow::parse_else(s) {
            Some(v) => Some(EventDataV::Else(v)),
            None => None,
        }
    } else if ty == 33 {
        match control_flow::parse_elseif(s) {
            Some(v) => Some(EventDataV::Elseif(v)),
            None => None,
        }
    } else if ty == 34 {
        match control_flow::parse_endif(s) {
            Some(v) => Some(EventDataV::Endif(v)),
            None => None,
        }
    } else if ty == 35 {
        match callback::parse(ad, s) {
            Some(v) => Some(EventDataV::Callback(v)),
            None => None,
        }
    } else if ty == 36 {
        match fbfx_color_from_to::parse(ad, s) {
            Some(v) => Some(EventDataV::FbfxColorFromTo(v)),
            None => None,
        }
    } else if ty == 41 {
        match detonate_weapon::parse(ad, s) {
            Some(v) => Some(EventDataV::DetonateWeapon(v)),
            None => None,
        }
    } else if ty == 42 {
        match puffer_state::parse(ad, s) {
            Some(v) => Some(EventDataV::PufferState(v)),
            None => None,
        }
    } else {
        None
    }
}

/// The record of an event, if it can be written.
#[verifier::opaque]
pub open spec fn serialize_data(ad: AnimDefV, d: EventDataV) -> Option<Seq<u8>> {
    match d {
        EventDataV::Sound(v) => sound::serialize(ad, v),
        EventDataV::SoundNode(v) => sound_node::serialize(ad, v),
        EventDataV::Effect(v) => effect::serialize(ad, v),
        EventDataV::LightAnimation(v) => light_animation::serialize(ad, v),
        EventDataV::ObjectActiveState(v) => object_active_state::serialize(ad, v),
        EventDataV::ObjectTranslateState(v) => object_translate_state::serialize(ad, v),
        EventDataV::ObjectScaleState(v) => object_scale_state::serialize(ad, v),
        EventDataV::ObjectRotateState(v) => object_rotate_state::serialize(ad, v),
        EventDataV::ObjectMotion(v) => object_motion::serialize(ad, v),
        EventDataV::ObjectMotionFromTo(v) => object_motion_from_to::serialize(ad, v),
        EventDataV::ObjectMotionSiScript(v) => object_motion_si_script::serialize(ad, v),
        EventDataV::ObjectOpacityState(v) => object_opacity_state::serialize(ad, v),
        EventDataV::ObjectOpacityFromTo(v) => object_opacity_from_to::serialize(ad, v),
        EventDataV::ObjectDeleteChild(v) => object_delete_child::serialize(ad, v),
        EventDataV::ObjectCycleTexture(v) => object_cycle_texture::serialize(ad, v),
        EventDataV::ObjectConnector(v) => object_connector::serialize(ad, v),
        EventDataV::CallObjectConnector(v) => call_object_connector::serialize(ad, v),
        EventDataV::CameraState(v) => camera_state::serialize(ad, v),
        EventDataV::CameraFromTo(v) => camera_from_to::serialize(ad, v),
        EventDataV::CallSequence(v) => named::serialize(v.name, named::SEQUENCE_INDEX),
        EventDataV::StopSequence(v) => named::serialize(v.name, named::SEQUENCE_INDEX),
        EventDataV::CallAnimation(v) => call_animation::serialize(ad, v),
        EventDataV::StopAnimation(v) => named::serialize(v.name, named::ANIMATION_INDEX),
        EventDataV::ResetAnimation(v) => named::serialize(v.name, named::ANIMATION_INDEX),
        EventDataV::InvalidateAnimation(v) => named::serialize(v.name, named::ANIMATION_INDEX),
        EventDataV::FogState(v) => fog_state::serialize(ad, v),
        EventDataV::Loop(v) => loop_event::serialize(ad, v),
        EventDataV::If(v) => control_flow::serialize_if(v),
        EventDataV::Else(v) => control_flow::serialize_else(v),
        EventDataV::Elseif(v) => control_flow::serialize_elseif(v),
        EventDataV::Endif(v) => control_flow::serialize_endif(v),
        EventDataV::Callback(v) => callback::serialize(ad, v),
        EventDataV::FbfxColorFromTo(v) => fbfx_color_from_to::serialize(ad, v),
        EventDataV::FbfxCsinwaveFromTo(v) => fbfx_csinwave_from_to::serialize(ad, v),
        EventDataV::AnimVerbose(v) => anim_verbose::serialize(ad, v),
        EventDataV::DetonateWeapon(v) => detonate_weapon::serialize(ad, v),
        EventDataV::PufferState(v) => puffer_state::serialize(ad, v),
    }
}

/// The type byte of an event.
pub fn event_type(d: &EventData) -> (r: u8)
    ensures
        r == type_of(d.deep_view()),
{
    reveal(type_of);
    match d {
        EventData::Sound(_) => 1,
        EventData::SoundNode(_) => 2,
        EventData::Effect(_) => 3,
        EventData::LightAnimation(_) => 5,
        EventData::ObjectActiveState(_) => 6,
        EventData::ObjectTranslateState(_) => 7,
        EventData::ObjectScaleState(_) => 8,
        EventData::ObjectRotateState(_) => 9,
        EventData::ObjectMotion(_) => 10,
        EventData::ObjectMotionFromTo(_) => 11,
        EventData::ObjectMotionSiScript(_) => 12,
        EventData::ObjectOpacityState(_) => 13,
        EventData::ObjectOpacityFromTo(_) => 14,
        EventData::ObjectDeleteChild(_) => 16,
        EventData::ObjectCycleTexture(_) => 17,
        EventData::ObjectConnector(_) => 18,
        EventData::CallObjectConnector(_) => 19,
        EventData::CameraState(_) => 20,
        EventData::CameraFromTo(_) => 21,
        EventData::CallSequence(_) => 22,
        EventData::StopSequence(_) => 23,
        EventData::CallAnimation(_) => 24,
        EventData::StopAnimation(_) => 25,
        EventData::ResetAnimation(_) => 26,
        EventData::InvalidateAnimation(_) => 27,
        EventData::FogState(_) => 28,
        EventData::Loop(_) => 30,
        EventData::If(_) => 31,
        EventData::Else(_) => 32,
        EventData::Elseif(_) => 33,
        EventData::Endif(_) => 34,
        EventData::Callback(_) => 35,
        EventData::FbfxColorFromTo(_) => 36,
        EventData::FbfxCsinwaveFromTo(_) => 37,
        EventData::AnimVerbose(_) => 39,
        EventData::DetonateWeapon(_) => 41,
        EventData::PufferState(_) => 42,
    }
}

/// The size of the record of an event.
pub fn size_event(d: &EventData) -> (r: Option<u32>)
    ensures
        r == (if data_size(d.deep_view()) <= u32::MAX {
            Some(data_size(d.deep_view()) as u32)
        } else {
            None
        }),
{
    reveal(data_size);
    match d {
        EventData::Sound(v) => Some(sound::SIZE),
        EventData::SoundNode(v) => Some(sound_node::SIZE),
        EventData::Effect(v) => Some(effect::SIZE),
        EventData::LightAnimation(v) => Some(light_animation::SIZE),
        EventData::ObjectActiveState(v) => Some(object_active_state::SIZE),
        EventData::ObjectTranslateState(v) => Some(object_translate_state::SIZE),
        EventData::ObjectScaleState(v) => Some(object_scale_state::SIZE),
        EventData::ObjectRotateState(v) => Some(object_rotate_state::SIZE),
        EventData::ObjectMotion(v) => Some(object_motion::SIZE),
        EventData::ObjectMotionFromTo(v) => Some(object_motion_from_to::SIZE),
        EventData::ObjectMotionSiScript(v) => object_motion_si_script::size_of(v),
        EventData::ObjectOpacityState(v) => Some(object_opacity_state::SIZE),
        EventData::ObjectOpacityFromTo(v) => Some(object_opacity_from_to::SIZE),
        EventData::ObjectDeleteChild(v) => Some(object_delete_child::SIZE),
        EventData::ObjectCycleTexture(v) => Some(object_cycle_texture::SIZE),
        EventData::ObjectConnector(v) => Some(object_connector::SIZE),
        EventData::CallObjectConnector(v) => Some(call_object_connector::SIZE),
        EventData::CameraState(v) => Some(camera_state::SIZE),
        EventData::CameraFromTo(v) => Some(camera_from_to::SIZE),
        EventData::CallSequence(v) => Some(named::SIZE),
        EventData::StopSequence(v) => Some(named::SIZE),
        EventData::CallAnimation(v) => Some(call_animation::SIZE),
        EventData::StopAnimation(v) => Some(named::SIZE),
        EventData::ResetAnimation(v) => Some(named::SIZE),
        EventData::InvalidateAnimation(v) => Some(named::SIZE),
        EventData::FogState(v) => Some(fog_state::SIZE),
        EventData::Loop(v) => Some(loop_event::SIZE),
        EventData::If(v) => Some(control_flow::SIZE),
        EventData::Else(v) => Some(control_flow::EMPTY_SIZE),
        EventData::Elseif(v) => Some(control_flow::SIZE),
        EventData::Endif(v) => Some(control_flow::EMPTY_SIZE),
        EventData::Callback(v) => Some(callback::SIZE),
        EventData::FbfxColorFromTo(v) => Some(fbfx_color_from_to::SIZE),
        EventData::FbfxCsinwaveFromTo(v) => Some(fbfx_csinwave_from_to::SIZE),
        EventData::AnimVerbose(v) => Some(anim_verbose::SIZE),
        EventData::DetonateWeapon(v) => Some(detonate_weapon::SIZE),
        EventData::PufferState(v) => Some(puffer_state::SIZE),
    }
}

/// Reads the record of an event of the given type.
pub fn read_event(ty: u8, data: &[u8], ad: &AnimDef) -> (r: Result<EventData, Error>)
    ensures
        match parse_data(ad@, ty, data@) {
            Some(d) => r matches Ok(x) && x.deep_view() == d,
            None => r == Err::<EventData, Error>(Error::Invalid),
        },
{
    reveal(parse_data);
    if ty == 1 {
        let v = sound::read(data, ad)?;
        Ok(EventData::Sound(v))
    } else if ty == 2 {
        let v = sound_node::read(data, ad)?;
        Ok(EventData::SoundNode(v))
    } else if ty == 3 {
        let v = effect::read(data, ad)?;
        Ok(EventData::Effect(v))
    } else if ty == 5 {
        let v = light_animation::read(data, ad)?;
        Ok(EventData::LightAnimation(v))
    } else if ty == 6 {
        let v = object_active_state::read(data, ad)?;
        Ok(EventData::ObjectActiveState(v))
    } else if ty == 7 {
        let v = object_translate_state::read(data, ad)?;
        Ok(EventData::ObjectTranslateState(v))
    } else if ty == 8 {
        let v = object_scale_state::read(data, ad)?;
        Ok(EventData::ObjectScaleState(v))
    } else if ty == 9 {
        let v = object_rotate_state::read(data, ad)?;
        Ok(EventData::ObjectRotateState(v))
    } else if ty == 10 {
        let v = object_motion::read(data, ad)?;
        Ok(EventData::ObjectMotion(v))
    } else if ty == 11 {
        let v = object_motion_from_to::read(data, ad)?;
        Ok(EventData::ObjectMotionFromTo(v))
    } else if ty == 12 {
        let v = object_motion_si_script::read(data, ad)?;
        Ok(EventData::ObjectMotionSiScript(v))
    } else if ty == 13 {
        let v = object_opacity_state::read(data, ad)?;
        Ok(EventData::ObjectOpacityState(v))
    } else if ty == 14 {
        let v = object_opacity_from_to::read(data, ad)?;
        Ok(EventData::ObjectOpacityFromTo(v))
    } else if ty == 16 {
        let v = object_delete_child::read(data, ad)?;
        Ok(EventData::ObjectDeleteChild(v))
    } else if ty == 17 {
        let v = object_cycle_texture::read(data, ad)?;
        Ok(EventData::ObjectCycleTexture(v))
    } else if ty == 18 {
        let v = object_connector::read(data, ad)?;
        Ok(EventData::ObjectConnector(v))
    } else if ty == 19 {
        let v = call_object_connector::read(data, ad)?;
        Ok(EventData::CallObjectConnector(v))
    } else if ty == 20 {
        let v = camera_state::read(data, ad)?;
        Ok(EventData::CameraState(v))
    } else if ty == 21 {
        let v = camera_from_to::read(data, ad)?;
        Ok(EventData::CameraFromTo(v))
    } else if ty == 22 {
        let n = named::read(data, named::SEQUENCE_INDEX)?;
        Ok(EventData::CallSequence(CallSequence { name: n }))
    } else if ty == 23 {
        let n = named::read(data, named::SEQUENCE_INDEX)?;
        Ok(EventData::StopSequence(StopSequence { name: n }))
    } else if ty == 24 {
        let v = call_animation::read(data, ad)?;
        Ok(EventData::CallAnimation(v))
    } else if ty == 25 {
        let n = named::read(data, named::ANIMATION_INDEX)?;
        Ok(EventData::StopAnimation(StopAnimation { name: n }))
    } else if ty == 26 {
        let n = named::read(data, named::ANIMATION_INDEX)?;
        Ok(EventData::ResetAnimation(ResetAnimation { name: n }))
    } else if ty == 27 {
        let n = named::read(data, named::ANIMATION_INDEX)?;
        Ok(EventData::InvalidateAnimation(InvalidateAnimation { name: n }))
    } else if ty == 28 {
        let v = fog_state::read(data, ad)?;
        Ok(EventData::FogState(v))
    } else if ty == 30 {
        let v = loop_event::read(data, ad)?;
        Ok(EventData::Loop(v))
    } else if ty == 31 {
        let v = control_flow::read_if(data)?;
        Ok(EventData::If(v))
    } else if ty == 32 {
        let v = control_flow::read_else(data)?;
        Ok(EventData::Else(v))
    } else if ty == 33 {
        let v = control_flow::read_elseif(data)?;
        Ok(EventData::Elseif(v))
    } else if ty == 34 {
        let v = control_flow::read_endif(data)?;
        Ok(EventData::Endif(v))
    } else if ty == 35 {
        let v = callback::read(data, ad)?;
        Ok(EventData::Callback(v))
    } else if ty == 36 {
        let v = fbfx_color_from_to::read(data, ad)?;
        Ok(EventData::FbfxColorFromTo(v))
    } else if ty == 41 {
        let v = detonate_weapon::read(data, ad)?;
        Ok(EventData::DetonateWeapon(v))
    } else if ty == 42 {
        let v = puffer_state::read(data, ad)?;
        Ok(EventData::PufferState(v))
    } else {
        Err(Error::Invalid)
    }
}

/// Writes the record of an event.
pub fn write_event(d: &EventData, ad: &AnimDef, out: &mut Vec<u8>) -> (r: Result<
    (),
    Error,
>)
    ensures
        match serialize_data(ad@, d.deep_view()) {
            Some(b) => r is Ok && final(out)@ == old(out)@ + b,
            None => r == Err::<(), Error>(Error::Invalid) && final(out)@ == old(out)@,
        },
{
    reveal(serialize_data);
    match d {
        EventData::Sound(v) => sound::write(v, ad, out),
        EventData::SoundNode(v) => sound_node::write(v, ad, out),
        EventData::Effect(v) => effect::write(v, ad, out),
        EventData::LightAnimation(v) => light_animation::write(v, ad, out),
        EventData::ObjectActiveState(v) => object_active_state::write(v, ad, out),
        EventData::ObjectTranslateState(v) => object_translate_state::write(v, ad, out),
        EventData::ObjectScaleState(v) => object_scale_state::write(v, ad, out),
        EventData::ObjectRotateState(v) => object_rotate_state::write(v, ad, out),
        EventData::ObjectMotion(v) => object_motion::write(v, ad, out),
        EventData::ObjectMotionFromTo(v) => object_motion_from_to::write(v, ad, out),
        EventData::ObjectMotionSiScript(v) => object_motion_si_script::write(v, ad, out),
        EventData::ObjectOpacityState(v) => object_opacity_state::write(v, ad, out),
        EventData::ObjectOpacityFromTo(v) => object_opacity_from_to::write(v, ad, out),
        EventData::ObjectDeleteChild(v) => object_delete_child::write(v, ad, out),
        EventData::ObjectCycleTexture(v) => object_cycle_texture::write(v, ad, out),
        EventData::ObjectConnector(v) => object_connector::write(v, ad, out),
        EventData::CallObjectConnector(v) => call_object_connector::write(v, ad, out),
        EventData::CameraState(v) => camera_state::write(v, ad, out),
        EventData::CameraFromTo(v) => camera_from_to::write(v, ad, out),
        EventData::CallSequence(v) => named::write(&v.name, named::SEQUENCE_INDEX, out),
        EventData::StopSequence(v) => named::write(&v.name, named::SEQUENCE_INDEX, out),
        EventData::CallAnimation(v) => call_animation::write(v, ad, out),
        EventData::StopAnimation(v) => named::write(&v.name, named::ANIMATION_INDEX, out),
        EventData::ResetAnimation(v) => named::write(&v.name, named::ANIMATION_INDEX, out),
        EventData::InvalidateAnimation(v) => named::write(&v.name, named::ANIMATION_INDEX, out),
        EventData::FogState(v) => fog_state::write(v, ad, out),
        EventData::Loop(v) => loop_event::write(v, ad, out),
        EventData::If(v) => control_flow::write_if(v, out),
        EventData::Else(v) => control_flow::write_else(v, out),
        EventData::Elseif(v) => control_flow::write_elseif(v, out),
        EventData::Endif(v) => control_flow::write_endif(v, out),
        EventData::Callback(v) => callback::write(v, ad, out),
        EventData::FbfxColorFromTo(v) => fbfx_color_from_to::write(v, ad, out),
        EventData::FbfxCsinwaveFromTo(v) => fbfx_csinwave_from_to::write(v, ad, out),
        EventData::AnimVerbose(v) => anim_verbose::write(v, ad, out),
        EventData::DetonateWeapon(v) => detonate_weapon::write(v, ad, out),
        EventData::PufferState(v) => puffer_state::write(v, ad, out),
    }
}

/// Writing an event that was read gives a record of the event's size that
/// reads back as the same event.
pub proof fn lemma_reread_data(ad: AnimDefV, ty: u8, s: Seq<u8>)
    requires
        parse_data(ad, ty, s) is Some,
    ensures
        ({
            let d = parse_data(ad, ty, s).unwrap();
            &&& type_of(d) == ty
            &&& s.len() == data_size(d)
            &&& serialize_data(ad, d) matches Some(b) && b.len() == data_size(d)
                && parse_data(ad, ty, b) == Some(d)
        }),
{
    reveal(parse_data);
    reveal(serialize_data);
    reveal(type_of);
    reveal(data_size);
    if ty == 1 {
        sound::lemma_reread(ad, s);
    } else if ty == 2 {
        sound_node::lemma_reread(ad, s);
    } else if ty == 3 {
        effect::lemma_reread(ad, s);
    } else if ty == 5 {
        light_animation::lemma_reread(ad, s);
    } else if ty == 6 {
        object_active_state::lemma_reread(ad, s);
    } else if ty == 7 {
        object_translate_state::lemma_reread(ad, s);
    } else if ty == 8 {
        object_scale_state::lemma_reread(ad, s);
    } else if ty == 9 {
        object_rotate_state::lemma_reread(ad, s);
    } else if ty == 10 {
        object_motion::lemma_reread(ad, s);
    } else if ty == 11 {
        object_motion_from_to::lemma_reread(ad, s);
    } else if ty == 12 {
        object_motion_si_script::lemma_reread(ad, s);
    } else if ty == 13 {
        object_opacity_state::lemma_reread(ad, s);
    } else if ty == 14 {
        object_opacity_from_to::lemma_reread(ad, s);
    } else if ty == 16 {
        object_delete_child::lemma_reread(ad, s);
    } else if ty == 17 {
        object_cycle_texture::lemma_reread(ad, s);
    } else if ty == 18 {
        object_connector::lemma_reread(ad, s);
    } else if ty == 19 {
        call_object_connector::lemma_reread(ad, s);
    } else if ty == 20 {
        camera_state::lemma_reread(ad, s);
    } else if ty == 21 {
        camera_from_to::lemma_reread(ad, s);
    } else if ty == 22 {
        named::lemma_reread(s, named::SEQUENCE_INDEX);
    } else if ty == 23 {
        named::lemma_reread(s, named::SEQUENCE_INDEX);
    } else if ty == 24 {
        call_animation::lemma_reread(ad, s);
    } else if ty == 25 {
        named::lemma_reread(s, named::ANIMATION_INDEX);
    } else if ty == 26 {
        named::lemma_reread(s, named::ANIMATION_INDEX);
    } else if ty == 27 {
        named::lemma_reread(s, named::ANIMATION_INDEX);
    } else if ty == 28 {
        fog_state::lemma_reread(ad, s);
    } else if ty == 30 {
        loop_event::lemma_reread(ad, s);
    } else if ty == 31 {
        control_flow::lemma_reread_if(s);
    } else if ty == 32 {
        control_flow::lemma_reread_else(s);
    } else if ty == 33 {
        control_flow::lemma_reread_elseif(s);
    } else if ty == 34 {
        control_flow::lemma_reread_endif(s);
    } else if ty == 35 {
        callback::lemma_reread(ad, s);
    } else if ty == 36 {
        fbfx_color_from_to::lemma_reread(ad, s);
    } else if ty == 41 {
        detonate_weapon::lemma_reread(ad, s);
    } else if ty == 42 {
        puffer_state::lemma_reread(ad, s);
    }
}

/// A record of the given type is written back exactly as it was read,
/// where the names of the definition are distinct: the conditions of the
/// type's module.
#[verifier::opaque]
pub open spec fn exact_data(ad: AnimDefV, ty: u8, s: Seq<u8>) -> bool {
    if ty == 1 {
        sound::exact_record(ad, s)
    } else if ty == 2 {
        sound_node::exact_record(ad, s)
    } else if ty == 3 {
        effect::exact_record(ad, s)
    } else if ty == 5 {
        light_animation::exact_record(ad, s)
    } else if ty == 6 {
        object_active_state::exact_record(ad, s)
    } else if ty == 7 {
        object_translate_state::exact_record(ad, s)
    } else if ty == 8 {
        object_scale_state::exact_record(ad, s)
    } else if ty == 9 {
        object_rotate_state::exact_record(ad, s)
    } else if ty == 10 {
        object_motion::exact_record(ad, s)
    } else if ty == 11 {
        object_motion_from_to::exact_record(ad, s)
    } else if ty == 12 {
        object_motion_si_script::exact_record(ad, s)
    } else if ty == 13 {
        object_opacity_state::exact_record(ad, s)
    } else if ty == 14 {
        object_opacity_from_to::exact_record(ad, s)
    } else if ty == 16 {
        object_delete_child::exact_record(ad, s)
    } else if ty == 17 {
        object_cycle_texture::exact_record(ad, s)
    } else if ty == 18 {
        object_connector::exact_record(ad, s)
    } else if ty == 19 {
        call_object_connector::exact_record(ad, s)
    } else if ty == 20 {
        camera_state::exact_record(ad, s)
    } else if ty == 21 {
        camera_from_to::exact_record(ad, s)
    } else if ty == 22 {
        true
    } else if ty == 23 {
        true
    } else if ty == 24 {
        call_animation::exact_record(ad, s)
    } else if ty == 25 {
        true
    } else if ty == 26 {
        true
    } else if ty == 27 {
        true
    } else if ty == 28 {
        fog_state::exact_record(ad, s)
    } else if ty == 30 {
        loop_event::exact_record(ad, s)
    } else if ty == 31 {
        true
    } else if ty == 32 {
        true
    } else if ty == 33 {
        true
    } else if ty == 34 {
        true
    } else if ty == 35 {
        callback::exact_record(ad, s)
    } else if ty == 36 {
        fbfx_color_from_to::exact_record(ad, s)
    } else if ty == 41 {
        detonate_weapon::exact_record(ad, s)
    } else if ty == 42 {
        puffer_state::exact_record(ad, s)
    } else {
        false
    }
}

/// Writing the event of a record gives the record back, where the names of
/// the definition are distinct and the record is written back exactly.
pub proof fn lemma_exact_data(ad: AnimDefV, ty: u8, s: Seq<u8>)
    requires
        parse_data(ad, ty, s) is Some,
        crate::anim_def::distinct_names(ad),
        exact_data(ad, ty, s),
    ensures
        serialize_data(ad, parse_data(ad, ty, s).unwrap()) == Some(s),
{
    reveal(parse_data);
    reveal(serialize_data);
    reveal(exact_data);
    if ty == 1 {
        sound::lemma_exact(ad, s);
    } else if ty == 2 {
        sound_node::lemma_exact(ad, s);
    } else if ty == 3 {
        effect::lemma_exact(ad, s);
    } else if ty == 5 {
        light_animation::lemma_exact(ad, s);
    } else if ty == 6 {
        object_active_state::lemma_exact(ad, s);
    } else if ty == 7 {
        object_translate_state::lemma_exact(ad, s);
    } else if ty == 8 {
        object_scale_state::lemma_exact(ad, s);
    } else if ty == 9 {
        object_rotate_state::lemma_exact(ad, s);
    } else if ty == 10 {
        object_motion::lemma_exact(ad, s);
    } else if ty == 11 {
        object_motion_from_to::lemma_exact(ad, s);
    } else if ty == 12 {
        object_motion_si_script::lemma_exact(ad, s);
    } else if ty == 13 {
        object_opacity_state::lemma_exact(ad, s);
    } else if ty == 14 {
        object_opacity_from_to::lemma_exact(ad, s);
    } else if ty == 16 {
        object_delete_child::lemma_exact(ad, s);
    } else if ty == 17 {
        object_cycle_texture::lemma_exact(ad, s);
    } else if ty == 18 {
        object_connector::lemma_exact(ad, s);
    } else if ty == 19 {
        call_object_connector::lemma_exact(ad, s);
    } else if ty == 20 {
        camera_state::lemma_exact(ad, s);
    } else if ty == 21 {
        camera_from_to::lemma_exact(ad, s);
    } else if ty == 22 {
        named::lemma_exact(s, named::SEQUENCE_INDEX);
    } else if ty == 23 {
        named::lemma_exact(s, named::SEQUENCE_INDEX);
    } else if ty == 24 {
        call_animation::lemma_exact(ad, s);
    } else if ty == 25 {
        named::lemma_exact(s, named::ANIMATION_INDEX);
    } else if ty == 26 {
        named::lemma_exact(s, named::ANIMATION_INDEX);
    } else if ty == 27 {
        named::lemma_exact(s, named::ANIMATION_INDEX);
    } else if ty == 28 {
        fog_state::lemma_exact(ad, s);
    } else if ty == 30 {
        loop_event::lemma_exact(ad, s);
    } else if ty == 31 {
        control_flow::lemma_exact_if(s);
    } else if ty == 32 {
        control_flow::lemma_exact_empty(s);
    } else if ty == 33 {
        control_flow::lemma_exact_elseif(s);
    } else if ty == 34 {
        control_flow::lemma_exact_empty(s);
    } else if ty == 35 {
        callback::lemma_exact(ad, s);
    } else if ty == 36 {
        fbfx_color_from_to::lemma_exact(ad, s);
    } else if ty == 41 {
        detonate_weapon::lemma_exact(ad, s);
    } else if ty == 42 {
        puffer_state::lemma_exact(ad, s);
    }
}

/// Every record that is written has the size that its event's header
/// announces for it.
pub proof fn lemma_written_size_data(ad: AnimDefV, d: EventDataV)
    requires
        serialize_data(ad, d) is Some,
    ensures
        serialize_data(ad, d).unwrap().len() == data_size(d),
{
    reveal(serialize_data);
    reveal(data_size);
    match d {
        EventDataV::Sound(v) => sound::lemma_written_size(ad, v),
        EventDataV::SoundNode(v) => sound_node::lemma_written_size(ad, v),
        EventDataV::Effect(v) => effect::lemma_written_size(ad, v),
        EventDataV::LightAnimation(v) => light_animation::lemma_written_size(ad, v),
        EventDataV::ObjectActiveState(v) => object_active_state::lemma_written_size(ad, v),
        EventDataV::ObjectTranslateState(v) => object_translate_state::lemma_written_size(ad, v),
        EventDataV::ObjectScaleState(v) => object_scale_state::lemma_written_size(ad, v),
        EventDataV::ObjectRotateState(v) => object_rotate_state::lemma_written_size(ad, v),
        EventDataV::ObjectMotion(v) => object_motion::lemma_written_size(ad, v),
        EventDataV::ObjectMotionFromTo(v) => object_motion_from_to::lemma_written_size(ad, v),
        EventDataV::ObjectMotionSiScript(v) => object_motion_si_script::lemma_written_size(ad, v),
        EventDataV::ObjectOpacityState(v) => object_opacity_state::lemma_written_size(ad, v),
        EventDataV::ObjectOpacityFromTo(v) => object_opacity_from_to::lemma_written_size(ad, v),
        EventDataV::ObjectDeleteChild(v) => object_delete_child::lemma_written_size(ad, v),
        EventDataV::ObjectCycleTexture(v) => object_cycle_texture::lemma_written_size(ad, v),
        EventDataV::ObjectConnector(v) => object_connector::lemma_written_size(ad, v),
        EventDataV::CallObjectConnector(v) => call_object_connector::lemma_written_size(ad, v),
        EventDataV::CameraState(v) => camera_state::lemma_written_size(ad, v),
        EventDataV::CameraFromTo(v) => camera_from_to::lemma_written_size(ad, v),
        EventDataV::CallSequence(v) => named::lemma_written_size(v.name, named::SEQUENCE_INDEX),
        EventDataV::StopSequence(v) => named::lemma_written_size(v.name, named::SEQUENCE_INDEX),
        EventDataV::CallAnimation(v) => call_animation::lemma_written_size(ad, v),
        EventDataV::StopAnimation(v) => named::lemma_written_size(v.name, named::ANIMATION_INDEX),
        EventDataV::ResetAnimation(v) => named::lemma_written_size(v.name, named::ANIMATION_INDEX),
        EventDataV::InvalidateAnimation(v) => named::lemma_written_size(v.name, named::ANIMATION_INDEX),
        EventDataV::FogState(v) => fog_state::lemma_written_size(ad, v),
        EventDataV::Loop(v) => loop_event::lemma_written_size(ad, v),
        EventDataV::If(v) => control_flow::lemma_cond_roundtrip(v.condition),
        EventDataV::Else(v) => {},
        EventDataV::Elseif(v) => control_flow::lemma_cond_roundtrip(v.condition),
        EventDataV::Endif(v) => {},
        EventDataV::Callback(v) => callback::lemma_written_size(ad, v),
        EventDataV::FbfxColorFromTo(v) => fbfx_color_from_to::lemma_written_size(ad, v),
        EventDataV::FbfxCsinwaveFromTo(v) => fbfx_csinwave_from_to::lemma_written_size(ad, v),
        EventDataV::AnimVerbose(v) => anim_verbose::lemma_written_size(ad, v),
        EventDataV::DetonateWeapon(v) => detonate_weapon::lemma_written_size(ad, v),
        EventDataV::PufferState(v) => puffer_state::lemma_written_size(ad, v),
    }
}

} // verus!
