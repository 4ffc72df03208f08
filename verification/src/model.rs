//! Decoded telemetry as *domain state*: the vocabulary a display animates.
//!
//! Nothing downstream of this module should ever see a packet.

pub mod buffer;
pub mod laws;
pub mod state;

pub use buffer::{BufferConfig, BufferStats, Freshness, JitterBuffer, Shown, MEAN_PARTS};
pub use state::{
    decode_demo, decode_vehicle_state, encode_vehicle_state, Mode, Quat, Sample, Single,
    SpacecraftState, DEMO_PAYLOAD_LEN, DEMO_PAYLOAD_OFFSET, VEHICLE_PAYLOAD_LEN,
    VEHICLE_PAYLOAD_OFFSET,
};
