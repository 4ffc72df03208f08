//! Generating the spacecraft model: a glTF document, written out as text.
//!
//! The rig is source code: joint axes, rest poses and keyframe timings are all
//! readable, and generating the asset reproduces it exactly.

pub mod base64;
pub mod buffer;
pub mod clip;
pub mod document;
pub mod mesh;
pub mod scene;
pub mod spacecraft;
