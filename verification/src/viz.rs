//! The operator's display: where each animated signal comes from, whether a command
//! did anything, and what the panel says about both.

pub mod args;
pub mod command_loop;
pub mod keys;
pub mod panel;
pub mod recording;
pub mod rig;
pub mod sources;
