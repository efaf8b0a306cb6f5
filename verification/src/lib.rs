//! Reading and writing of the animation event streams found in MechWarrior 3
//! animation definitions, verified with Verus.
#![allow(unused_imports)]

pub mod error;
pub mod anim_def;
pub mod float;
pub mod record;
pub mod text;
pub mod model;
pub mod events;
pub mod flags;
pub mod mw;
pub mod si_script;
