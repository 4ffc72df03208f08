use vstd::prelude::*;

use crate::ccsds::error::Error;
use crate::ccsds::packet;
use crate::ccsds::primary::{PacketType, PrimaryHeader, SeqFlags};
use crate::ccsds::secondary;
use crate::ccsds::secondary::{compute_checksum, CmdSecondaryHeader};
use crate::msg::ids::MsgId;
use crate::octets;

verus! {

/// The primary header of a command with `payload_len` octets of payload.
pub open spec fn command_header(msg_id: MsgId, seq_count: u16, payload_len: nat) -> PrimaryHeader {
    PrimaryHeader {
        apid: msg_id.apid_of() as u16,
        packet_type: PacketType::Command,
        secondary_header: true,
        seq_flags: SeqFlags::Unsegmented,
        seq_count,
        data_length: (payload_len + 1) as u16,
    }
}

/// A command before its checksum is filled in.
pub open spec fn unsummed_command(
    msg_id: MsgId,
    function_code: u8,
    seq_count: u16,
    payload: Seq<u8>,
) -> Seq<u8> {
    command_header(msg_id, seq_count, payload.len()).octets() + seq![
        (function_code % 0x80) as u8,
        0u8,
    ] + payload
}

/// A finished command: header, function code, checksum, payload.
pub open spec fn command_octets(
    msg_id: MsgId,
    function_code: u8,
    seq_count: u16,
    payload: Seq<u8>,
) -> Seq<u8> {
    let raw = unsummed_command(msg_id, function_code, seq_count, payload);
    raw.update(7, secondary::checksum_of(raw, 7))
}

/// What building a command gives, for an output buffer of `room` octets.
pub open spec fn built_command(
    room: nat,
    msg_id: MsgId,
    function_code: u8,
    seq_count: u16,
    payload: Seq<u8>,
) -> Result<Seq<u8>, Error> {
    let total = 8 + payload.len();
    if room < total {
        Err(Error::BufferTooSmall { need: total as usize, got: room as usize })
    } else if total - 7 > u16::MAX {
        Err(Error::PayloadTooLarge(total as usize))
    } else {
        Ok(command_octets(msg_id, function_code, seq_count, payload))
    }
}

/// The output buffer after `built` went into it: the packet over its front, or
/// nothing at all.
pub open spec fn buffer_holding(before: Seq<u8>, built: Result<Seq<u8>, Error>) -> Seq<u8> {
    match built {
        Ok(p) => octets::overwrite(before, 0, p),
        Err(_) => before,
    }
}

/// Build a cFE command packet into `out`, returning the occupied prefix.
///
/// Layout: 6-octet primary header, 2-octet command secondary header, payload. The
/// checksum is computed last, over the finished packet.
pub fn build_command<'a>(
    out: &'a mut [u8],
    msg_id: MsgId,
    function_code: u8,
    seq_count: u16,
    payload: &[u8],
) -> (res: Result<&'a [u8], Error>)
    requires
        8 + payload@.len() <= usize::MAX,
    ensures
        packet::octets_result(res) == built_command(
            old(out)@.len(),
            msg_id,
            function_code,
            seq_count,
            payload@,
        ),
        final(out)@ == buffer_holding(old(out)@, packet::octets_result(res)),
{
    let total: usize = 8 + payload.len();
    if out.len() < total {
        return Err(Error::BufferTooSmall { need: total, got: out.len() });
    }
    let primary = match PrimaryHeader::for_total_len(
        msg_id.apid(),
        PacketType::Command,
        true,
        seq_count,
        total,
    ) {
        Ok(h) => h,
        Err(e) => {
            return Err(e);
        },
    };
    let ghost before = out@;
    let ghost raw = unsummed_command(msg_id, function_code, seq_count, payload@);
    assert(primary == command_header(msg_id, seq_count, payload@.len()));
    let _ = primary.write(out);
    out[6] = function_code % 0x80;
    out[7] = 0;
    octets::write_octets(out, 8, payload);
    assert(out@.take(total as int) =~= raw);

    let sum: u8 = compute_checksum(vstd::slice::slice_subrange(out, 0, total), 7);
    out[7] = sum;
    let finished = vstd::slice::slice_subrange(out, 0, total);
    assert(finished@ =~= command_octets(msg_id, function_code, seq_count, payload@));
    assert(out@ =~= octets::overwrite(before, 0, finished@));
    Ok(finished)
}

/// A built command parses back: it is one packet, addressed to the message ID it
/// was built for, carrying the function code, the sequence count and the payload
/// it was built with, and its octets sum to zero.
///
/// Bits beyond the wire's 11-bit APID, 7-bit function code and 14-bit sequence
/// count are dropped.
pub proof fn a_built_command_parses_back(
    msg_id: MsgId,
    function_code: u8,
    seq_count: u16,
    payload: Seq<u8>,
)
    requires
        payload.len() < u16::MAX,
    ensures
        ({
            let p = command_octets(msg_id, function_code, seq_count, payload);
            let h = PrimaryHeader::of_octets(p);
            let sum = secondary::checksum_of(
                unsummed_command(msg_id, function_code, seq_count, payload),
                7,
            );
            &&& p.len() == 8 + payload.len()
            &&& packet::is_packet(p)
            &&& h.packet_type == PacketType::Command
            &&& h.stream_id_of() == 0x1800 + msg_id.apid_of()
            &&& h.seq_count == seq_count % 0x4000
            &&& packet::cmd_secondary_of(p) == Ok::<CmdSecondaryHeader, Error>(
                CmdSecondaryHeader {
                    function_code: (function_code % 0x80) as u8,
                    checksum: sum,
                },
            )
            &&& packet::payload_of(p) == Ok::<Seq<u8>, Error>(payload)
            &&& secondary::xor_into(0xFF, p) == 0
        }),
{
    let raw = unsummed_command(msg_id, function_code, seq_count, payload);
    let p = command_octets(msg_id, function_code, seq_count, payload);
    let masked = PrimaryHeader {
        seq_count: (seq_count % 0x4000) as u16,
        ..command_header(msg_id, seq_count, payload.len())
    };
    assert(masked.octets() =~= command_header(msg_id, seq_count, payload.len()).octets());
    assert(p =~= masked.octets() + p.skip(6));
    crate::ccsds::primary::header_survives_the_wire(masked, p.skip(6));
    assert(PrimaryHeader::of_octets(p) == masked);
    assert(p.skip(6)[0] == function_code % 0x80);
    assert(packet::payload_of(p)->Ok_0 =~= payload);
    secondary::a_finished_packet_sums_to_zero(raw, 7);
}

/// Commands that differ only in their function code differ only in the function
/// code and checksum octets.
pub proof fn the_function_code_touches_two_octets(
    msg_id: MsgId,
    one: u8,
    other: u8,
    seq_count: u16,
    payload: Seq<u8>,
)
    requires
        one % 0x80 != other % 0x80,
    ensures
        ({
            let a = command_octets(msg_id, one, seq_count, payload);
            let b = command_octets(msg_id, other, seq_count, payload);
            &&& a.len() == b.len()
            &&& a.take(6) == b.take(6)
            &&& a[6] != b[6]
            &&& a.skip(8) == b.skip(8)
        }),
{
    let a = command_octets(msg_id, one, seq_count, payload);
    let b = command_octets(msg_id, other, seq_count, payload);
    assert(a.take(6) =~= b.take(6));
    assert(a.skip(8) =~= b.skip(8));
}

/// A command is its header's six octets, the function code, the checksum, and the
/// payload, octet for octet.
pub proof fn a_command_is_laid_out_octet_for_octet(
    msg_id: MsgId,
    function_code: u8,
    seq_count: u16,
    payload: Seq<u8>,
)
    requires
        payload.len() < u16::MAX,
    ensures
        ({
            let p = command_octets(msg_id, function_code, seq_count, payload);
            &&& p.len() == payload.len() + 8
            &&& p[0] * 0x100 + p[1] == 0x1800 + msg_id.0 % 0x800
            &&& p[2] * 0x100 + p[3] == 0xC000 + seq_count % 0x4000
            &&& p[4] * 0x100 + p[5] == payload.len() + 1
            &&& p[6] == function_code % 0x80
            &&& p.skip(8) == payload
        }),
{
    let p = command_octets(msg_id, function_code, seq_count, payload);
    assert(p.skip(8) =~= payload);
}

/// A command is built wherever there is room for eight octets and the payload, and the
/// length field can say so. Building one changes those octets of the buffer and no
/// other; a refusal changes nothing.
pub proof fn a_command_is_built_where_it_fits(
    before: Seq<u8>,
    msg_id: MsgId,
    function_code: u8,
    seq_count: u16,
    payload: Seq<u8>,
)
    requires
        before.len() <= usize::MAX,
        payload.len() + 8 <= usize::MAX,
    ensures
        ({
            let n = payload.len() + 8;
            let r = built_command(before.len(), msg_id, function_code, seq_count, payload);
            let after = buffer_holding(before, r);
            &&& before.len() < n ==> r == Err::<Seq<u8>, Error>(
                Error::BufferTooSmall { need: n as usize, got: before.len() as usize },
            )
            &&& before.len() >= n && n > 65542 ==> r == Err::<Seq<u8>, Error>(
                Error::PayloadTooLarge(n as usize),
            )
            &&& before.len() >= n && n <= 65542 ==> {
                &&& r == Ok::<Seq<u8>, Error>(
                    command_octets(msg_id, function_code, seq_count, payload),
                )
                &&& after.take(n as int) == r->Ok_0
                &&& after.skip(n as int) == before.skip(n as int)
            }
            &&& r is Err ==> after == before
        }),
{
    let n = payload.len() + 8;
    let r = built_command(before.len(), msg_id, function_code, seq_count, payload);
    let after = buffer_holding(before, r);
    if r is Ok {
        assert(after.take(n as int) =~= r->Ok_0);
        assert(after.skip(n as int) =~= before.skip(n as int));
    }
}

/// The octets of a command, the checksum with them, sum to zero.
pub proof fn a_command_sums_to_zero(
    msg_id: MsgId,
    function_code: u8,
    seq_count: u16,
    payload: Seq<u8>,
)
    ensures
        secondary::xor_into(0xFF, command_octets(msg_id, function_code, seq_count, payload)) == 0,
{
    secondary::a_finished_packet_sums_to_zero(
        unsummed_command(msg_id, function_code, seq_count, payload),
        7,
    );
}

} // verus!
