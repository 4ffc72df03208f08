//! Real cFE housekeeping payloads.
//!
//! # Endianness
//!
//! **Little-endian.** CCSDS *headers* are big-endian by standard, but payloads are
//! raw C structs and follow the target's native byte order. A big-endian target
//! flips this, and nothing in the packet says which it was.
//!
//! # Offsets
//!
//! Every payload here starts at octet **16** of the packet, not 12:
//! `CFE_MSG_TelemetryHeader_t` carries four octets of alignment spare after the
//! 6-octet timestamp. [`SpacePacket::cfe_tlm_payload`] accounts for it.

use vstd::prelude::*;

use crate::ccsds::packet;
use crate::ccsds::packet::SpacePacket;
use crate::octets;

verus! {

/// `SAMPLE_APP_HkTlm_Payload_t`.
///
/// Two octets. `CommandCounter` is **first**, which is worth stating because
/// several other cFS apps order the pair the other way, and with both counters
/// usually at zero the mistake is invisible until something goes wrong.
#[derive(Clone, Copy, Debug, PartialEq, Eq, Structural)]
pub struct SampleAppHk {
    pub command_counter: u8,
    pub command_error_counter: u8,
}

impl SampleAppHk {
    pub const LEN: usize = 2;

    /// What decoding `payload` gives.
    pub open spec fn decoded(payload: Seq<u8>) -> Option<SampleAppHk> {
        if payload.len() < 2 {
            None
        } else {
            Some(
                SampleAppHk { command_counter: payload[0], command_error_counter: payload[1] },
            )
        }
    }

    /// What decoding a whole packet gives.
    pub open spec fn in_packet(p: Seq<u8>) -> Option<SampleAppHk> {
        match packet::cfe_tlm_payload_of(p) {
            Ok(payload) => SampleAppHk::decoded(payload),
            Err(_) => None,
        }
    }

    pub fn decode(payload: &[u8]) -> (res: Option<Self>)
        ensures
            res == SampleAppHk::decoded(payload@),
    {
        if payload.len() < 2 {
            return None;
        }
        Some(SampleAppHk { command_counter: payload[0], command_error_counter: payload[1] })
    }

    /// Decode straight from a packet, accounting for the cFE telemetry spare.
    pub fn from_packet(pkt: &SpacePacket<'_>) -> (res: Option<Self>)
        ensures
            res == SampleAppHk::in_packet(pkt@),
    {
        match pkt.cfe_tlm_payload() {
            Ok(payload) => SampleAppHk::decode(payload),
            Err(_) => None,
        }
    }
}

/// `TO_LAB_HkTlm_Payload_t`. Same shape and same field order as [`SampleAppHk`],
/// but a distinct type: they are different messages, and conflating them is how a
/// panel ends up showing the wrong app's counters.
#[derive(Clone, Copy, Debug, PartialEq, Eq, Structural)]
pub struct ToLabHk {
    pub command_counter: u8,
    pub command_error_counter: u8,
}

impl ToLabHk {
    pub const LEN: usize = 2;

    /// What decoding `payload` gives.
    pub open spec fn decoded(payload: Seq<u8>) -> Option<ToLabHk> {
        if payload.len() < 2 {
            None
        } else {
            Some(ToLabHk { command_counter: payload[0], command_error_counter: payload[1] })
        }
    }

    /// What decoding a whole packet gives.
    pub open spec fn in_packet(p: Seq<u8>) -> Option<ToLabHk> {
        match packet::cfe_tlm_payload_of(p) {
            Ok(payload) => ToLabHk::decoded(payload),
            Err(_) => None,
        }
    }

    pub fn decode(payload: &[u8]) -> (res: Option<Self>)
        ensures
            res == ToLabHk::decoded(payload@),
    {
        if payload.len() < 2 {
            return None;
        }
        Some(ToLabHk { command_counter: payload[0], command_error_counter: payload[1] })
    }

    pub fn from_packet(pkt: &SpacePacket<'_>) -> (res: Option<Self>)
        ensures
            res == ToLabHk::in_packet(pkt@),
    {
        match pkt.cfe_tlm_payload() {
            Ok(payload) => ToLabHk::decode(payload),
            Err(_) => None,
        }
    }
}

/// `CI_LAB_HkTlm_Payload_t`: twelve octets, and the most useful packet on the bus
/// for proving a command actually arrived.
///
/// [`CiLabHk::ingest_packets`] counts datagrams `ci_lab` read off its uplink
/// socket, which is a different thing from [`CiLabHk::command_counter`]: the latter
/// counts commands addressed to `ci_lab` itself. The pair together distinguishes
/// "the datagram reached cFS" from "the datagram was addressed to me".
#[derive(Clone, Copy, Debug, PartialEq, Eq, Structural)]
pub struct CiLabHk {
    pub command_counter: u8,
    pub command_error_counter: u8,
    pub enable_checksums: u8,
    pub socket_connected: u8,
    /// Datagrams read off the uplink socket since startup.
    pub ingest_packets: u32,
    pub ingest_errors: u32,
}

impl CiLabHk {
    pub const LEN: usize = 12;

    /// What decoding `payload` gives.
    pub open spec fn decoded(payload: Seq<u8>) -> Option<CiLabHk> {
        if payload.len() < 12 {
            None
        } else {
            Some(
                CiLabHk {
                    command_counter: payload[0],
                    command_error_counter: payload[1],
                    enable_checksums: payload[2],
                    socket_connected: payload[3],
                    ingest_packets: octets::le32(payload, 4) as u32,
                    ingest_errors: octets::le32(payload, 8) as u32,
                },
            )
        }
    }

    /// What decoding a whole packet gives.
    pub open spec fn in_packet(p: Seq<u8>) -> Option<CiLabHk> {
        match packet::cfe_tlm_payload_of(p) {
            Ok(payload) => CiLabHk::decoded(payload),
            Err(_) => None,
        }
    }

    pub fn decode(payload: &[u8]) -> (res: Option<Self>)
        ensures
            res == CiLabHk::decoded(payload@),
    {
        if payload.len() < 12 {
            return None;
        }
        Some(
            CiLabHk {
                command_counter: payload[0],
                command_error_counter: payload[1],
                enable_checksums: payload[2],
                socket_connected: payload[3],
                ingest_packets: octets::read_le32(payload, 4),
                ingest_errors: octets::read_le32(payload, 8),
            },
        )
    }

    pub fn from_packet(pkt: &SpacePacket<'_>) -> (res: Option<Self>)
        ensures
            res == CiLabHk::in_packet(pkt@),
    {
        match pkt.cfe_tlm_payload() {
            Ok(payload) => CiLabHk::decode(payload),
            Err(_) => None,
        }
    }
}

impl Default for SampleAppHk {
    fn default() -> (hk: Self)
        ensures
            hk == (SampleAppHk { command_counter: 0, command_error_counter: 0 }),
    {
        SampleAppHk { command_counter: 0, command_error_counter: 0 }
    }
}

impl Default for ToLabHk {
    fn default() -> (hk: Self)
        ensures
            hk == (ToLabHk { command_counter: 0, command_error_counter: 0 }),
    {
        ToLabHk { command_counter: 0, command_error_counter: 0 }
    }
}

impl Default for CiLabHk {
    fn default() -> (hk: Self)
        ensures
            hk == (CiLabHk {
                command_counter: 0,
                command_error_counter: 0,
                enable_checksums: 0,
                socket_connected: 0,
                ingest_packets: 0,
                ingest_errors: 0,
            }),
    {
        CiLabHk {
            command_counter: 0,
            command_error_counter: 0,
            enable_checksums: 0,
            socket_connected: 0,
            ingest_packets: 0,
            ingest_errors: 0,
        }
    }
}

/// The command counter is the first octet of a payload and the error counter the
/// second, whatever follows; a shorter payload is refused.
pub proof fn the_command_counter_comes_first(c: u8, e: u8, tail: Seq<u8>, short: Seq<u8>)
    requires
        short.len() < 2,
    ensures
        SampleAppHk::decoded(seq![c, e] + tail) == Some(
            SampleAppHk { command_counter: c, command_error_counter: e },
        ),
        ToLabHk::decoded(seq![c, e] + tail) == Some(
            ToLabHk { command_counter: c, command_error_counter: e },
        ),
        SampleAppHk::decoded(short) is None,
        ToLabHk::decoded(short) is None,
{
}

/// Four octets of a word, low ones first, are read back as that word.
proof fn lemma_low_octets_first(p: Seq<u8>, at: int, n: u32)
    requires
        p[at] == n % 0x100,
        p[at + 1] == n / 0x100 % 0x100,
        p[at + 2] == n / 0x1_0000 % 0x100,
        p[at + 3] == n / 0x100_0000,
    ensures
        octets::le32(p, at) as u32 == n,
{
}

/// `CI_LAB` counts its ingest in two 32-bit words behind four octets, low octets
/// first; a payload of fewer than twelve octets is refused.
pub proof fn ci_lab_housekeeping_survives_the_wire(hk: CiLabHk, tail: Seq<u8>, short: Seq<u8>)
    requires
        short.len() < 12,
    ensures
        ({
            let n = hk.ingest_packets;
            let k = hk.ingest_errors;
            CiLabHk::decoded(
                seq![
                    hk.command_counter,
                    hk.command_error_counter,
                    hk.enable_checksums,
                    hk.socket_connected,
                    (n % 0x100) as u8,
                    (n / 0x100 % 0x100) as u8,
                    (n / 0x1_0000 % 0x100) as u8,
                    (n / 0x100_0000) as u8,
                    (k % 0x100) as u8,
                    (k / 0x100 % 0x100) as u8,
                    (k / 0x1_0000 % 0x100) as u8,
                    (k / 0x100_0000) as u8,
                ] + tail,
            ) == Some(hk)
        }),
        CiLabHk::decoded(short) is None,
{
    let n = hk.ingest_packets;
    let k = hk.ingest_errors;
    let head = seq![
        hk.command_counter,
        hk.command_error_counter,
        hk.enable_checksums,
        hk.socket_connected,
        (n % 0x100) as u8,
        (n / 0x100 % 0x100) as u8,
        (n / 0x1_0000 % 0x100) as u8,
        (n / 0x100_0000) as u8,
        (k % 0x100) as u8,
        (k / 0x100 % 0x100) as u8,
        (k / 0x1_0000 % 0x100) as u8,
        (k / 0x100_0000) as u8,
    ];
    let p = head + tail;
    assert(forall|i: int| 0 <= i < 12 ==> p[i] == head[i]);
    lemma_low_octets_first(p, 4, n);
    lemma_low_octets_first(p, 8, k);
}

/// Housekeeping is read from octet 16 of a telemetry packet that carries a timestamp,
/// and from no other.
pub proof fn housekeeping_is_read_from_octet_16(p: Seq<u8>)
    requires
        packet::is_packet(p),
    ensures
        ({
            let telemetry = p[0] / 16 % 2 == 0 && p[0] / 8 % 2 == 1;
            &&& telemetry && p.len() >= 18 ==> SampleAppHk::in_packet(p) == Some(
                SampleAppHk { command_counter: p[16], command_error_counter: p[17] },
            ) && ToLabHk::in_packet(p) == Some(
                ToLabHk { command_counter: p[16], command_error_counter: p[17] },
            )
            &&& !telemetry || p.len() < 18 ==> SampleAppHk::in_packet(p) is None
                && ToLabHk::in_packet(p) is None
            &&& telemetry && p.len() >= 28 ==> (CiLabHk::in_packet(p) matches Some(hk) && {
                &&& hk.command_counter == p[16]
                &&& hk.command_error_counter == p[17]
                &&& hk.enable_checksums == p[18]
                &&& hk.socket_connected == p[19]
                &&& hk.ingest_packets == p[20] + 0x100 * (p[21] + 0x100 * (p[22] + 0x100 * p[23]))
                &&& hk.ingest_errors == p[24] + 0x100 * (p[25] + 0x100 * (p[26] + 0x100 * p[27]))
            })
            &&& !telemetry || p.len() < 28 ==> CiLabHk::in_packet(p) is None
        }),
{
}

} // verus!
