use vstd::prelude::*;

use crate::text;

verus! {

/// Everything that can go wrong decoding a space packet.
#[derive(Clone, Copy, Debug, PartialEq, Eq, Structural)]
pub enum Error {
    /// Buffer shorter than the packet claims to be.
    Truncated { need: usize, got: usize },
    /// Primary header version field was not 0, the only version cFS emits.
    ///
    /// In practice this means the byte stream is misaligned, not that a newer
    /// CCSDS version showed up.
    BadVersion(u8),
    /// Asked for a command header on a telemetry packet, or the reverse.
    WrongPacketType,
    /// Secondary-header flag is clear, so there is no secondary header to read.
    NoSecondaryHeader,
    /// Buffer too small to write the requested packet.
    BufferTooSmall { need: usize, got: usize },
    /// Packet body exceeds what the 16-bit length field can express.
    PayloadTooLarge(usize),
}

impl Error {
    /// How the error reads to an operator.
    pub open spec fn wording(self) -> Seq<char> {
        match self {
            Error::Truncated { need, got } => "truncated packet: need "@ + text::decimal(
                need as nat,
            ) + " octets, got "@ + text::decimal(got as nat),
            Error::BadVersion(v) => "unsupported CCSDS version "@ + text::decimal(v as nat)
                + " (expected 0)"@,
            Error::WrongPacketType => "packet type does not match the requested header"@,
            Error::NoSecondaryHeader => "secondary header flag is not set"@,
            Error::BufferTooSmall { need, got } => "output buffer too small: need "@
                + text::decimal(need as nat) + " octets, got "@ + text::decimal(got as nat),
            Error::PayloadTooLarge(n) => "payload of "@ + text::decimal(n as nat)
                + " octets exceeds the length field"@,
        }
    }

    /// The error in words.
    pub fn message(&self) -> (s: String)
        ensures
            s@ == self.wording(),
    {
        let mut s = String::new();
        match self {
            Error::Truncated { need, got } => {
                s.append("truncated packet: need ");
                text::push_decimal(&mut s, *need as u64);
                s.append(" octets, got ");
                text::push_decimal(&mut s, *got as u64);
            },
            Error::BadVersion(v) => {
                s.append("unsupported CCSDS version ");
                text::push_decimal(&mut s, *v as u64);
                s.append(" (expected 0)");
            },
            Error::WrongPacketType => {
                s.append("packet type does not match the requested header");
            },
            Error::NoSecondaryHeader => {
                s.append("secondary header flag is not set");
            },
            Error::BufferTooSmall { need, got } => {
                s.append("output buffer too small: need ");
                text::push_decimal(&mut s, *need as u64);
                s.append(" octets, got ");
                text::push_decimal(&mut s, *got as u64);
            },
            Error::PayloadTooLarge(n) => {
                s.append("payload of ");
                text::push_decimal(&mut s, *n as u64);
                s.append(" octets exceeds the length field");
            },
        }
        s
    }
}

/// An error says what is wrong, with the numbers it has.
pub proof fn an_error_says_what_is_wrong(need: usize, got: usize, version: u8)
    ensures
        (Error::Truncated { need, got }).wording() == "truncated packet: need "@ + text::decimal(
            need as nat,
        ) + " octets, got "@ + text::decimal(got as nat),
        Error::BadVersion(version).wording() == "unsupported CCSDS version "@ + text::decimal(
            version as nat,
        ) + " (expected 0)"@,
        Error::WrongPacketType.wording() == "packet type does not match the requested header"@,
        Error::NoSecondaryHeader.wording() == "secondary header flag is not set"@,
        (Error::BufferTooSmall { need, got }).wording() == "output buffer too small: need "@
            + text::decimal(need as nat) + " octets, got "@ + text::decimal(got as nat),
        Error::PayloadTooLarge(got).wording() == "payload of "@ + text::decimal(got as nat)
            + " octets exceeds the length field"@,
{
}

} // verus!
