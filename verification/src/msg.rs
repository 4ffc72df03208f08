//! cFE message identifiers and the lab-application messages a ground display
//! needs.
//!
//! # Message IDs are not portable
//!
//! Every value in [`MsgIds`] is a property of a specific cFS *build*, not of cFS in
//! general. Older bundles used CCSDS v1 stream IDs; later builds generate message
//! IDs from topic IDs, and a mission tree can renumber anything. Hardcoding these
//! is the single easiest way to spend a day debugging silence.
//!
//! So [`MsgIds::lab_defaults`] is a *starting guess*, and [`MsgIds::parse`] reads
//! the real values from a config filled in from the build's generated
//! `cfs_msgids.h`.

pub mod command;
pub mod config;
pub mod hk;
pub mod ids;
pub mod rust_app;
pub mod sample_app;
pub mod to_lab;

pub use command::build_command;
pub use ids::{ConfigError, MsgId, MsgIds};
