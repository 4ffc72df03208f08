//! Ground-side telemetry for a running core Flight System: packet codec, message
//! definitions, link bookkeeping, jitter buffer, and the decisions a live display
//! makes from what arrives.
//!
//! Everything here is free of sockets, clocks and rendering. Callers hand in
//! octets and times and get values back.

pub mod anim;
pub mod args;
pub mod capture;
pub mod ccsds;
pub mod clock;
pub mod flight;
pub mod gltf;
pub mod ground;
pub mod link;
pub mod mappings;
pub mod model;
pub mod msg;
pub mod numeral;
pub mod octets;
pub mod standin;
pub mod text;
pub mod vehicle;
pub mod viz;
