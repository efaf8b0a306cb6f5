//! Values shared by many event records.
//!
//! Floating-point values are held as their IEEE-754 bit patterns (see
//! `float`). Names are byte strings; model types take the type of names as a
//! parameter, `Vec<u8>` at run time and `Seq<u8>` in specifications.
use vstd::prelude::*;
use crate::float;
use crate::record::{FieldV, Fld};

verus! {

/// Three `f32` values.
#[derive(Clone, Copy, Debug, PartialEq, Eq, Structural)]
pub struct Vec3 {
    pub x: u32,
    pub y: u32,
    pub z: u32,
}

/// A range of two `f32` values.
#[derive(Clone, Copy, Debug, PartialEq, Eq, Structural)]
pub struct Range {
    pub min: u32,
    pub max: u32,
}

/// A colour of three `f32` values.
#[derive(Clone, Copy, Debug, PartialEq, Eq, Structural)]
pub struct Color {
    pub r: u32,
    pub g: u32,
    pub b: u32,
}

/// A quaternion of four `f32` values.
#[derive(Clone, Copy, Debug, PartialEq, Eq, Structural)]
pub struct Quaternion {
    pub x: u32,
    pub y: u32,
    pub z: u32,
    pub w: u32,
}

/// All components compare equal to `0.0`.
pub open spec fn vec3_is_zero(v: Vec3) -> bool {
    float::is_zero(v.x) && float::is_zero(v.y) && float::is_zero(v.z)
}

/// Both ends compare equal to `0.0`.
pub open spec fn range_is_zero(v: Range) -> bool {
    float::is_zero(v.min) && float::is_zero(v.max)
}

/// All components compare equal to `0.0` (black).
pub open spec fn color_is_black(v: Color) -> bool {
    float::is_zero(v.r) && float::is_zero(v.g) && float::is_zero(v.b)
}

/// All components lie in `0.0..=1.0`.
pub open spec fn color_is_valid(v: Color) -> bool {
    &&& float::in_range(float::ZERO, v.r, float::ONE)
    &&& float::in_range(float::ZERO, v.g, float::ONE)
    &&& float::in_range(float::ZERO, v.b, float::ONE)
}

/// No component is `-0.0`.
pub open spec fn vec3_no_neg_zero(v: Vec3) -> bool {
    v.x != float::NEG_ZERO && v.y != float::NEG_ZERO && v.z != float::NEG_ZERO
}

/// No end is `-0.0`.
pub open spec fn range_no_neg_zero(v: Range) -> bool {
    v.min != float::NEG_ZERO && v.max != float::NEG_ZERO
}

/// No component is `-0.0`.
pub open spec fn color_no_neg_zero(v: Color) -> bool {
    v.r != float::NEG_ZERO && v.g != float::NEG_ZERO && v.b != float::NEG_ZERO
}

/// All components compare equal to `0.0`.
pub fn vec3_is_zero_exec(v: Vec3) -> (r: bool)
    ensures
        r == vec3_is_zero(v),
{
    float::f32_is_zero(v.x) && float::f32_is_zero(v.y) && float::f32_is_zero(v.z)
}

/// Both ends compare equal to `0.0`.
pub fn range_is_zero_exec(v: Range) -> (r: bool)
    ensures
        r == range_is_zero(v),
{
    float::f32_is_zero(v.min) && float::f32_is_zero(v.max)
}

/// All components compare equal to `0.0`.
pub fn color_is_black_exec(v: Color) -> (r: bool)
    ensures
        r == color_is_black(v),
{
    float::f32_is_zero(v.r) && float::f32_is_zero(v.g) && float::f32_is_zero(v.b)
}

/// All components lie in `0.0..=1.0`.
pub fn color_is_valid_exec(v: Color) -> (r: bool)
    ensures
        r == color_is_valid(v),
{
    float::f32_in_range(float::ZERO, v.r, float::ONE) && float::f32_in_range(
        float::ZERO,
        v.g,
        float::ONE,
    ) && float::f32_in_range(float::ZERO, v.b, float::ONE)
}

/// The zero vector.
pub open spec fn vec3_zero() -> Vec3 {
    Vec3 { x: 0, y: 0, z: 0 }
}

/// The zero range.
pub open spec fn range_zero() -> Range {
    Range { min: 0, max: 0 }
}

/// Black.
pub open spec fn color_black() -> Color {
    Color { r: 0, g: 0, b: 0 }
}

/// A position relative to a node.
#[derive(Debug)]
pub struct AtNode<N> {
    pub name: N,
    pub pos: Vec3,
}

impl DeepView for AtNode<Vec<u8>> {
    type V = AtNode<Seq<u8>>;

    open spec fn deep_view(&self) -> AtNode<Seq<u8>> {
        AtNode { name: self.name@, pos: self.pos }
    }
}

/// A translation: at a node, or absolute.
#[derive(Debug)]
pub enum Translate<N> {
    AtNode(AtNode<N>),
    Absolute(Vec3),
}

impl DeepView for Translate<Vec<u8>> {
    type V = Translate<Seq<u8>>;

    open spec fn deep_view(&self) -> Translate<Seq<u8>> {
        match self {
            Translate::AtNode(a) => Translate::AtNode(a.deep_view()),
            Translate::Absolute(v) => Translate::Absolute(*v),
        }
    }
}

/// A `from`/`to` pair of `f32` values, with the per-second change that the
/// record stores beside them.
#[derive(Clone, Copy, Debug, PartialEq, Eq, Structural)]
pub struct FloatFromTo {
    pub from: u32,
    pub to: u32,
    pub delta: u32,
}

/// A `from`/`to` pair of vectors, with the stored per-second change.
#[derive(Clone, Copy, Debug, PartialEq, Eq, Structural)]
pub struct Vec3FromTo {
    pub from: Vec3,
    pub to: Vec3,
    pub delta: Vec3,
}

/// The three fields of a vector.
pub open spec fn vec3_fields(v: Vec3) -> Seq<FieldV> {
    seq![FieldV::U32(v.x), FieldV::U32(v.y), FieldV::U32(v.z)]
}

/// An optional name, as Verus sees it.
pub open spec fn opt_name(o: Option<Vec<u8>>) -> Option<Seq<u8>> {
    match o {
        Some(v) => Some(v@),
        None => None,
    }
}

/// Copies a name.
pub fn copy_name(n: &Vec<u8>) -> (r: Vec<u8>)
    ensures
        r@ == n@,
{
    crate::text::copy_bytes(n)
}

/// The truth value of a stored boolean: `0` or `1`.
pub open spec fn bool_of(x: int) -> Option<bool> {
    if x == 0 {
        Some(false)
    } else if x == 1 {
        Some(true)
    } else {
        None
    }
}

/// The stored value of a boolean.
pub open spec fn bool_int(b: bool) -> int {
    if b {
        1
    } else {
        0
    }
}

/// A stored boolean of four bytes.
pub fn bool32_exec(x: u32) -> (r: Option<bool>)
    ensures
        r == bool_of(x as int),
{
    if x == 0 {
        Some(false)
    } else if x == 1 {
        Some(true)
    } else {
        None
    }
}

/// A stored boolean of two bytes.
pub fn bool16_exec(x: u16) -> (r: Option<bool>)
    ensures
        r == bool_of(x as int),
{
    bool32_exec(x as u32)
}

} // verus!
