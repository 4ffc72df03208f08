use vstd::prelude::*;

use crate::ccsds::error::Error;
use crate::clock::{TICKS_PER_SECOND, TICKS_PER_SUBSECOND};
use crate::octets;

verus! {

/// cFE command secondary header: a function code and a checksum.
///
/// The high bit of the function-code octet is reserved, so the code itself is
/// 7 bits.
#[derive(Clone, Copy, Debug, PartialEq, Eq, Structural)]
pub struct CmdSecondaryHeader {
    pub function_code: u8,
    pub checksum: u8,
}

impl CmdSecondaryHeader {
    pub const LEN: usize = 2;

    /// The header as it appears on the wire.
    pub open spec fn octets(self) -> Seq<u8> {
        seq![(self.function_code % 0x80) as u8, self.checksum]
    }

    /// What parsing `b` gives.
    pub open spec fn parsed(b: Seq<u8>) -> Result<CmdSecondaryHeader, Error> {
        if b.len() < 2 {
            Err(Error::Truncated { need: 2, got: b.len() as usize })
        } else {
            Ok(CmdSecondaryHeader { function_code: (b[0] % 0x80) as u8, checksum: b[1] })
        }
    }

    pub fn parse(data_field: &[u8]) -> (res: Result<Self, Error>)
        ensures
            res == CmdSecondaryHeader::parsed(data_field@),
    {
        if data_field.len() < 2 {
            return Err(Error::Truncated { need: 2, got: data_field.len() });
        }
        Ok(CmdSecondaryHeader { function_code: data_field[0] % 0x80, checksum: data_field[1] })
    }

    pub fn write(&self, out: &mut [u8]) -> (res: Result<(), Error>)
        ensures
            old(out)@.len() >= 2 ==> res is Ok && final(out)@ == octets::overwrite(
                old(out)@,
                0,
                self.octets(),
            ),
            old(out)@.len() < 2 ==> final(out)@ == old(out)@ && res == Err::<(), Error>(
                Error::BufferTooSmall { need: 2, got: old(out)@.len() as usize },
            ),
    {
        if out.len() < 2 {
            return Err(Error::BufferTooSmall { need: 2, got: out.len() });
        }
        out[0] = self.function_code % 0x80;
        out[1] = self.checksum;
        Ok(())
    }
}

/// cFE telemetry secondary header: a 6-octet timestamp.
///
/// The default `CFE_SB_TIME_32_16_SUBS` layout: 32 bits of seconds, 16 bits of
/// subseconds in units of 2^-16 s, both big-endian. The epoch is the mission's,
/// not Unix.
#[derive(Clone, Copy, Debug, PartialEq, Eq, Structural)]
pub struct TlmSecondaryHeader {
    pub seconds: u32,
    pub subseconds: u16,
}

impl TlmSecondaryHeader {
    pub const LEN: usize = 6;

    /// The header as it appears on the wire.
    pub open spec fn octets(self) -> Seq<u8> {
        octets::be32_octets(self.seconds as int) + octets::be16_octets(self.subseconds as int)
    }

    /// What parsing `b` gives.
    pub open spec fn parsed(b: Seq<u8>) -> Result<TlmSecondaryHeader, Error> {
        if b.len() < 6 {
            Err(Error::Truncated { need: 6, got: b.len() as usize })
        } else {
            Ok(
                TlmSecondaryHeader {
                    seconds: octets::be32(b, 0) as u32,
                    subseconds: octets::be16(b, 4) as u16,
                },
            )
        }
    }

    /// The timestamp as ticks since the mission epoch.
    pub open spec fn time(self) -> int {
        self.seconds * TICKS_PER_SECOND + self.subseconds * TICKS_PER_SUBSECOND
    }

    pub fn parse(data_field: &[u8]) -> (res: Result<Self, Error>)
        ensures
            res == TlmSecondaryHeader::parsed(data_field@),
    {
        if data_field.len() < 6 {
            return Err(Error::Truncated { need: 6, got: data_field.len() });
        }
        Ok(
            TlmSecondaryHeader {
                seconds: octets::read_be32(data_field, 0),
                subseconds: octets::read_be16(data_field, 4),
            },
        )
    }

    pub fn write(&self, out: &mut [u8]) -> (res: Result<(), Error>)
        ensures
            old(out)@.len() >= 6 ==> res is Ok && final(out)@ == octets::overwrite(
                old(out)@,
                0,
                self.octets(),
            ),
            old(out)@.len() < 6 ==> final(out)@ == old(out)@ && res == Err::<(), Error>(
                Error::BufferTooSmall { need: 6, got: old(out)@.len() as usize },
            ),
    {
        if out.len() < 6 {
            return Err(Error::BufferTooSmall { need: 6, got: out.len() });
        }
        octets::write_be32(out, 0, self.seconds);
        octets::write_be16(out, 4, self.subseconds);
        Ok(())
    }

    /// Timestamp in ticks since the mission epoch.
    pub fn ticks(&self) -> (t: i64)
        ensures
            t == self.time(),
            0 <= t,
    {
        self.seconds as i64 * TICKS_PER_SECOND + self.subseconds as i64 * TICKS_PER_SUBSECOND
    }
}

/// XOR of every octet of `b` into `seed`.
pub open spec fn xor_into(seed: u8, b: Seq<u8>) -> u8
    decreases b.len(),
{
    if b.len() == 0 {
        seed
    } else {
        xor_into(seed, b.drop_last()) ^ b.last()
    }
}

/// `b` with the octet at `at` zeroed, if there is one.
pub open spec fn zeroed_at(b: Seq<u8>, at: int) -> Seq<u8> {
    if 0 <= at < b.len() {
        b.update(at, 0)
    } else {
        b
    }
}

/// The cFE command checksum of `packet`.
pub open spec fn checksum_of(packet: Seq<u8>, checksum_offset: int) -> u8 {
    xor_into(0xFF, zeroed_at(packet, checksum_offset))
}

/// cFE command checksum: XOR of every octet of the packet, seeded with `0xFF`,
/// computed with the checksum octet itself zeroed.
///
/// The same algorithm as `CFE_MSG_ComputeCheckSum`. It matters less than it
/// looks, since `ci_lab` accepts commands without validating it, so a wrong value
/// here would not fail loudly.
pub fn compute_checksum(packet: &[u8], checksum_offset: usize) -> (sum: u8)
    ensures
        sum == checksum_of(packet@, checksum_offset as int),
{
    let ghost zeroed = zeroed_at(packet@, checksum_offset as int);
    let n: usize = packet.len();
    let mut sum: u8 = 0xFF;
    let mut i: usize = 0;
    while i < n
        invariant
            n == packet@.len(),
            i <= n,
            zeroed == zeroed_at(packet@, checksum_offset as int),
            sum == xor_into(0xFF, zeroed.take(i as int)),
        decreases n - i,
    {
        let ghost before = sum;
        assert(zeroed.take(i + 1).drop_last() =~= zeroed.take(i as int));
        if i != checksum_offset {
            sum = sum ^ packet[i];
        } else {
            assert(before ^ 0 == before) by (bit_vector);
        }
        i = i + 1;
    }
    assert(zeroed.take(n as int) =~= zeroed);
    sum
}

/// A telemetry timestamp comes back unchanged from its own octets, whatever
/// follows them.
pub proof fn timestamp_survives_the_wire(h: TlmSecondaryHeader, rest: Seq<u8>)
    ensures
        TlmSecondaryHeader::parsed(h.octets() + rest) == Ok::<TlmSecondaryHeader, Error>(h),
{
    let b = h.octets() + rest;
    assert(octets::be16(b, 0) == h.seconds as int / 0x1_0000);
    assert(octets::be16(b, 2) == h.seconds as int % 0x1_0000);
    assert(octets::be16(b, 4) == h.subseconds);
}

/// A command header whose function code fits its 7 bits comes back unchanged from
/// its own octets.
pub proof fn command_header_survives_the_wire(h: CmdSecondaryHeader, rest: Seq<u8>)
    requires
        h.function_code < 0x80,
    ensures
        CmdSecondaryHeader::parsed(h.octets() + rest) == Ok::<CmdSecondaryHeader, Error>(h),
{
}

/// Timestamps order exactly as their tick counts do.
pub proof fn ticks_order_as_timestamps(a: TlmSecondaryHeader, b: TlmSecondaryHeader)
    ensures
        a.time() < b.time() <==> (a.seconds < b.seconds || (a.seconds == b.seconds && a.subseconds
            < b.subseconds)),
        a.time() == b.time() <==> a == b,
{
}

/// The value of the checksum octet does not enter its own checksum.
pub proof fn checksum_does_not_depend_on_its_own_octet(packet: Seq<u8>, at: int, x: u8)
    requires
        0 <= at < packet.len(),
    ensures
        checksum_of(packet.update(at, x), at) == checksum_of(packet, at),
{
    assert(packet.update(at, x).update(at, 0) =~= packet.update(at, 0));
}

/// XOR over the whole of a packet that carries its own checksum is zero, which is
/// how the flight side validates one.
pub proof fn a_finished_packet_sums_to_zero(packet: Seq<u8>, at: int)
    requires
        0 <= at < packet.len(),
    ensures
        xor_into(0xFF, packet.update(at, checksum_of(packet, at))) == 0,
{
    let c = checksum_of(packet, at);
    lemma_xor_of_one_octet(0xFF, packet, at, c);
    assert(c ^ c == 0) by (bit_vector);
}

/// Setting one octet XORs that octet into the total.
proof fn lemma_xor_of_one_octet(seed: u8, b: Seq<u8>, at: int, x: u8)
    requires
        0 <= at < b.len(),
    ensures
        xor_into(seed, b.update(at, x)) == xor_into(seed, b.update(at, 0)) ^ x,
    decreases b.len(),
{
    let set = b.update(at, x);
    let clear = b.update(at, 0);
    if at == b.len() - 1 {
        let p = xor_into(seed, b.drop_last());
        assert(set.drop_last() =~= b.drop_last());
        assert(clear.drop_last() =~= b.drop_last());
        assert(p ^ x == (p ^ 0) ^ x) by (bit_vector);
    } else {
        lemma_xor_of_one_octet(seed, b.drop_last(), at, x);
        assert(set.drop_last() =~= b.drop_last().update(at, x));
        assert(clear.drop_last() =~= b.drop_last().update(at, 0));
        let p = xor_into(seed, b.drop_last().update(at, 0));
        let l = b.last();
        assert((p ^ x) ^ l == (p ^ l) ^ x) by (bit_vector);
    }
}

/// A command header is the function code in the low seven bits of one octet and the
/// checksum in the next.
pub proof fn a_command_header_is_two_octets(b: Seq<u8>)
    requires
        b.len() <= usize::MAX,
    ensures
        b.len() < 2 ==> CmdSecondaryHeader::parsed(b) == Err::<CmdSecondaryHeader, Error>(
            Error::Truncated { need: 2, got: b.len() as usize },
        ),
        b.len() >= 2 ==> (CmdSecondaryHeader::parsed(b) matches Ok(h) && h.function_code == b[0]
            % 0x80 && h.checksum == b[1]),
{
}

/// A telemetry header is 32 bits of seconds and 16 of subseconds, high octets first.
pub proof fn a_telemetry_header_is_six_octets(b: Seq<u8>)
    requires
        b.len() <= usize::MAX,
    ensures
        b.len() < 6 ==> TlmSecondaryHeader::parsed(b) == Err::<TlmSecondaryHeader, Error>(
            Error::Truncated { need: 6, got: b.len() as usize },
        ),
        b.len() >= 6 ==> (TlmSecondaryHeader::parsed(b) matches Ok(h) && h.seconds == ((b[0] * 0x100
            + b[1]) * 0x100 + b[2]) * 0x100 + b[3] && h.subseconds == b[4] * 0x100 + b[5]),
{
}

/// A second is 65536 subseconds and 1 024 000 000 ticks, and time runs at that one rate.
pub proof fn a_timestamp_counts_whole_subseconds(h: TlmSecondaryHeader)
    ensures
        h.time() * 65536 == (h.seconds * 65536 + h.subseconds) * 1_024_000_000,
{
}

/// The sum over more octets is the sum so far with each of them XORed in; over none it
/// is the seed.
pub proof fn the_sum_takes_in_every_octet(seed: u8, b: Seq<u8>, x: u8)
    ensures
        xor_into(seed, Seq::empty()) == seed,
        xor_into(seed, b.push(x)) == xor_into(seed, b) ^ x,
{
    assert(b.push(x).drop_last() =~= b);
}

/// A checksum whose octet is not in the packet is the plain sum of the packet.
pub proof fn a_checksum_outside_the_packet_sums_all_of_it(packet: Seq<u8>, at: int)
    requires
        at < 0 || at >= packet.len(),
    ensures
        checksum_of(packet, at) == xor_into(0xFF, packet),
{
}

/// A command header is written as its function code, without what does not fit seven
/// bits, and its checksum.
pub proof fn a_command_header_is_written_in_seven_bits(h: CmdSecondaryHeader)
    ensures
        h.octets().len() == 2,
        h.octets()[0] == h.function_code % 0x80,
        h.octets()[1] == h.checksum,
{
}

} // verus!
