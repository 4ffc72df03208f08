//! CCSDS Space Packet Protocol (CCSDS 133.0-B) primary header plus the two cFE
//! secondary headers.
//!
//! Decoding is zero-copy: [`SpacePacket`] is a borrowed view over a byte slice.

pub mod error;
pub mod packet;
pub mod primary;
pub mod secondary;

pub use error::Error;
pub use packet::{PacketIter, SpacePacket, CFE_TLM_SPARE_LEN};
pub use primary::{PacketType, PrimaryHeader, SeqFlags, MIN_PACKET_LEN, PRIMARY_HEADER_LEN};
pub use secondary::{compute_checksum, CmdSecondaryHeader, TlmSecondaryHeader};
