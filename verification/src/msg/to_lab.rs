//! `to_lab` commands.
//!
//! `to_lab` is the lab telemetry-output application: it holds a default
//! subscription list and, once output is enabled, forwards those packets over UDP
//! to whatever address the enable command names. Nothing arrives until that command
//! is sent; a silent telemetry socket is the expected state, not a bug.

use vstd::prelude::*;

use crate::ccsds::error::Error;
use crate::ccsds::packet;
use crate::msg::command;
use crate::msg::command::build_command;
use crate::msg::ids::MsgId;
use crate::octets;

verus! {

/// `TO_LAB_NOOP_CC`
pub const NOOP_CC: u8 = 0;

/// `TO_LAB_RESET_STATUS_CC`
pub const RESET_STATUS_CC: u8 = 1;

/// `TO_LAB_ADD_PKT_CC`
pub const ADD_PKT_CC: u8 = 2;

/// `TO_LAB_SEND_DATA_TYPES_CC`
pub const SEND_DATA_TYPES_CC: u8 = 3;

/// `TO_LAB_REMOVE_PKT_CC`
pub const REMOVE_PKT_CC: u8 = 4;

/// `TO_LAB_REMOVE_ALL_CC`
pub const REMOVE_ALL_CC: u8 = 5;

/// `TO_LAB_OUTPUT_ENABLE_CC`
pub const OUTPUT_ENABLE_CC: u8 = 6;

/// Width of the `dest_IP` field in `TO_LAB_EnableOutput_Payload_t`.
pub const DEST_IP_LEN: usize = 16;

/// Octets in `TO_LAB_AddPacket_Payload_t`.
///
/// `{ CFE_SB_MsgId_t Stream; CFE_SB_Qos_t Flags; uint8 BufLimit; }`: seven octets
/// of fields, which the compiler pads out to 8. `to_lab` reads the struct, not the
/// octets, and a 7-octet command is rejected as the wrong length.
pub const ADD_PKT_LEN: usize = 8;

/// An address in its fixed-width field, padded with NULs.
pub open spec fn dest_ip_field(address: Seq<u8>) -> Seq<u8> {
    Seq::new(16, |i: int| if i < address.len() { address[i] } else { 0u8 })
}

/// What building an enable-output command gives. The address must leave room for
/// one NUL in its field.
pub open spec fn built_enable_output(
    room: nat,
    to_lab_cmd: MsgId,
    seq_count: u16,
    address: Seq<u8>,
) -> Result<Seq<u8>, Error> {
    if address.len() >= DEST_IP_LEN {
        Err(Error::PayloadTooLarge(address.len() as usize))
    } else {
        command::built_command(
            room,
            to_lab_cmd,
            OUTPUT_ENABLE_CC,
            seq_count,
            dest_ip_field(address),
        )
    }
}

/// The payload of an add-packet command: the stream as a little-endian 32-bit
/// message ID, two unused quality-of-service octets, the queue depth, one octet of
/// padding.
pub open spec fn add_packet_payload(stream: MsgId, buf_limit: u8) -> Seq<u8> {
    octets::le32_octets(stream.0 as int) + seq![0u8, 0u8, buf_limit, 0u8]
}

/// Build the "enable output" command, pointing `to_lab` at `dest_ip`.
///
/// `dest_ip` is the address of the machine running the display as seen *from the
/// cFS host*. Inside a container that is the host gateway, not `127.0.0.1`.
pub fn enable_output<'a>(
    out: &'a mut [u8],
    to_lab_cmd: MsgId,
    seq_count: u16,
    dest_ip: &str,
) -> (res: Result<&'a [u8], Error>)
    ensures
        packet::octets_result(res) == built_enable_output(
            old(out)@.len(),
            to_lab_cmd,
            seq_count,
            vstd::utf8::encode_utf8(dest_ip@),
        ),
        final(out)@ == command::buffer_holding(old(out)@, packet::octets_result(res)),
{
    let address = dest_ip.as_bytes();
    if address.len() >= DEST_IP_LEN {
        return Err(Error::PayloadTooLarge(address.len()));
    }
    let mut payload: [u8; 16] = [0u8;16];
    let mut i: usize = 0;
    while i < address.len()
        invariant
            i <= address@.len() < 16,
            payload@ =~= dest_ip_field(address@.take(i as int)),
        decreases address@.len() - i,
    {
        payload[i] = address[i];
        i = i + 1;
    }
    assert(address@.take(i as int) =~= address@);
    build_command(out, to_lab_cmd, OUTPUT_ENABLE_CC, seq_count, &payload)
}

/// Subscribe `to_lab` to `stream`, so it appears on the downlink.
///
/// `buf_limit` is how many of this packet `to_lab` will queue.
///
/// The message ID in the payload is little-endian, unlike the stream ID in the
/// packet *header*, which is big-endian by CCSDS rule: the same 16-bit number,
/// spelled two different ways in the same datagram.
pub fn add_packet(
    out: &mut [u8],
    to_lab_cmd: MsgId,
    seq_count: u16,
    stream: MsgId,
    buf_limit: u8,
) -> (res: Result<&[u8], Error>)
    ensures
        packet::octets_result(res) == command::built_command(
            old(out)@.len(),
            to_lab_cmd,
            ADD_PKT_CC,
            seq_count,
            add_packet_payload(stream, buf_limit),
        ),
        final(out)@ == command::buffer_holding(old(out)@, packet::octets_result(res)),
{
    let payload: [u8; 8] = [
        (stream.0 % 0x100) as u8,
        (stream.0 / 0x100) as u8,
        0,
        0,
        0,
        0,
        buf_limit,
        0,
    ];
    assert(payload@ =~= add_packet_payload(stream, buf_limit));
    build_command(out, to_lab_cmd, ADD_PKT_CC, seq_count, &payload)
}

/// Build a no-op command. Useful as a liveness probe: `to_lab` answers with an
/// event message, which proves the command path works before any telemetry flows.
pub fn noop(out: &mut [u8], to_lab_cmd: MsgId, seq_count: u16) -> (res: Result<&[u8], Error>)
    ensures
        packet::octets_result(res) == command::built_command(
            old(out)@.len(),
            to_lab_cmd,
            NOOP_CC,
            seq_count,
            Seq::empty(),
        ),
        final(out)@ == command::buffer_holding(old(out)@, packet::octets_result(res)),
{
    let none: [u8; 0] = [];
    assert(none@ =~= Seq::<u8>::empty());
    build_command(out, to_lab_cmd, NOOP_CC, seq_count, &none)
}

/// The stream an add-packet command names reads back, little-endian, from the
/// payload of the command.
pub proof fn an_added_stream_reads_back(stream: MsgId, buf_limit: u8)
    ensures
        add_packet_payload(stream, buf_limit).len() == ADD_PKT_LEN,
        octets::le32(add_packet_payload(stream, buf_limit), 0) == stream.0,
        add_packet_payload(stream, buf_limit)[6] == buf_limit,
{
}

/// An enable-output command carries the address in a field of sixteen octets with NULs
/// behind it, under function code 6, and an address that leaves no NUL is refused.
pub proof fn an_address_is_padded_with_nuls(
    room: nat,
    to_lab_cmd: MsgId,
    seq_count: u16,
    address: Seq<u8>,
)
    requires
        address.len() <= usize::MAX,
        room <= usize::MAX,
    ensures
        ({
            let r = built_enable_output(room, to_lab_cmd, seq_count, address);
            &&& address.len() >= 16 ==> r == Err::<Seq<u8>, Error>(
                Error::PayloadTooLarge(address.len() as usize),
            )
            &&& address.len() < 16 && room < 24 ==> r == Err::<Seq<u8>, Error>(
                Error::BufferTooSmall { need: 24, got: room as usize },
            )
            &&& address.len() < 16 && room >= 24 ==> (r matches Ok(p) && {
                &&& p.len() == 24
                &&& p[0] * 0x100 + p[1] == 0x1800 + to_lab_cmd.0 % 0x800
                &&& p[2] * 0x100 + p[3] == 0xC000 + seq_count % 0x4000
                &&& p[6] == 6
                &&& p.subrange(8, 8 + address.len() as int) == address
                &&& forall|i: int| 8 + address.len() <= i < 24 ==> #[trigger] p[i] == 0
            })
        }),
{
    if address.len() < 16 && room >= 24 {
        let p = built_enable_output(room, to_lab_cmd, seq_count, address)->Ok_0;
        command::a_command_is_laid_out_octet_for_octet(
            to_lab_cmd,
            6,
            seq_count,
            dest_ip_field(address),
        );
        assert(p.skip(8) =~= dest_ip_field(address));
        assert forall|i: int| 8 <= i < 24 implies #[trigger] p[i] == dest_ip_field(
            address,
        )[i - 8] by {
            assert(p.skip(8)[i - 8] == p[i]);
        }
        assert(p.subrange(8, 8 + address.len() as int) =~= address);
    }
}

/// The payload of an add-packet command, octet for octet.
pub proof fn an_added_stream_is_eight_octets(stream: MsgId, buf_limit: u8)
    ensures
        add_packet_payload(stream, buf_limit) == seq![
            (stream.0 % 0x100) as u8,
            (stream.0 / 0x100) as u8,
            0u8,
            0u8,
            0u8,
            0u8,
            buf_limit,
            0u8,
        ],
{
    assert(add_packet_payload(stream, buf_limit) =~= seq![
        (stream.0 % 0x100) as u8,
        (stream.0 / 0x100) as u8,
        0u8,
        0u8,
        0u8,
        0u8,
        buf_limit,
        0u8,
    ]);
}

/// The function codes of `to_lab`, in its own order.
pub proof fn codes_are_in_their_order()
    ensures
        NOOP_CC == 0,
        RESET_STATUS_CC == 1,
        ADD_PKT_CC == 2,
        SEND_DATA_TYPES_CC == 3,
        REMOVE_PKT_CC == 4,
        REMOVE_ALL_CC == 5,
        OUTPUT_ENABLE_CC == 6,
{
}

} // verus!
