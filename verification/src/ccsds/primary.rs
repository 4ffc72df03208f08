use vstd::prelude::*;

use crate::ccsds::error::Error;
use crate::octets;

verus! {

/// Size of the CCSDS primary header, in octets.
pub const PRIMARY_HEADER_LEN: usize = 6;

/// The `PacketDataLength` field is `total_length - 7`, so the smallest legal
/// packet carries one octet of data.
pub const MIN_PACKET_LEN: usize = 7;

/// Packet type bit: telemetry (report) or command (request).
#[derive(Clone, Copy, Debug, PartialEq, Eq, Structural)]
pub enum PacketType {
    Telemetry,
    Command,
}

/// Sequence flags. cFS uses `Unsegmented` for essentially everything.
#[derive(Clone, Copy, Debug, PartialEq, Eq, Structural)]
pub enum SeqFlags {
    Continuation,
    First,
    Last,
    Unsegmented,
}

impl SeqFlags {
    /// The flags encoded by the two low bits of `bits`.
    pub open spec fn of_bits(bits: int) -> SeqFlags {
        if bits % 4 == 0 {
            SeqFlags::Continuation
        } else if bits % 4 == 1 {
            SeqFlags::First
        } else if bits % 4 == 2 {
            SeqFlags::Last
        } else {
            SeqFlags::Unsegmented
        }
    }

    /// The two-bit code of these flags.
    pub open spec fn code(self) -> int {
        match self {
            SeqFlags::Continuation => 0,
            SeqFlags::First => 1,
            SeqFlags::Last => 2,
            SeqFlags::Unsegmented => 3,
        }
    }

    pub fn from_bits(bits: u8) -> (flags: Self)
        ensures
            flags == SeqFlags::of_bits(bits as int),
    {
        match bits % 4 {
            0 => SeqFlags::Continuation,
            1 => SeqFlags::First,
            2 => SeqFlags::Last,
            _ => SeqFlags::Unsegmented,
        }
    }

    pub fn bits(self) -> (bits: u16)
        ensures
            bits == self.code(),
    {
        match self {
            SeqFlags::Continuation => 0,
            SeqFlags::First => 1,
            SeqFlags::Last => 2,
            SeqFlags::Unsegmented => 3,
        }
    }
}

/// The 6-octet CCSDS primary header, big-endian on the wire.
///
/// ```text
///  0                   1                   2                   3
///  0 1 2 3 4 5 6 7 8 9 0 1 2 3 4 5 6 7 8 9 0 1 2 3 4 5 6 7 8 9 0 1
/// +-----+-+-+-----------------+-----+-------------------------+
/// | Ver |T|S|      APID       |SeqFl|      Sequence Count      |
/// +-----+-+-+-----------------+-----+-------------------------+
/// |              Packet Data Length (total - 7)               |
/// +-----------------------------------------------------------+
/// ```
#[derive(Clone, Copy, Debug, PartialEq, Eq, Structural)]
pub struct PrimaryHeader {
    pub apid: u16,
    pub packet_type: PacketType,
    pub secondary_header: bool,
    pub seq_flags: SeqFlags,
    pub seq_count: u16,
    /// Raw `PacketDataLength` field: total octets minus 7.
    pub data_length: u16,
}

impl PrimaryHeader {
    /// Every field fits the bits the wire gives it: 11 for the APID, 14 for the
    /// sequence count.
    pub open spec fn fits(self) -> bool {
        &&& self.apid < 0x800
        &&& self.seq_count < 0x4000
    }

    /// The first 16 header bits: type, secondary-header flag and APID, with the
    /// version bits clear.
    pub open spec fn stream_id_of(self) -> int {
        self.apid % 0x800
            + (if self.packet_type == PacketType::Command { 0x1000int } else { 0 })
            + (if self.secondary_header { 0x800int } else { 0 })
    }

    /// Total packet length the header announces.
    pub open spec fn packet_len(self) -> int {
        self.data_length + 7
    }

    /// The header as it appears on the wire.
    pub open spec fn octets(self) -> Seq<u8> {
        octets::be16_octets(self.stream_id_of())
            + octets::be16_octets(self.seq_flags.code() * 0x4000 + self.seq_count % 0x4000)
            + octets::be16_octets(self.data_length as int)
    }

    /// The header that six octets spell, whatever their version field says.
    pub open spec fn of_octets(b: Seq<u8>) -> PrimaryHeader {
        let w0 = octets::be16(b, 0);
        let w1 = octets::be16(b, 2);
        PrimaryHeader {
            apid: (w0 % 0x800) as u16,
            packet_type: if w0 / 0x1000 % 2 == 1 {
                PacketType::Command
            } else {
                PacketType::Telemetry
            },
            secondary_header: w0 / 0x800 % 2 == 1,
            seq_flags: SeqFlags::of_bits(w1 / 0x4000),
            seq_count: (w1 % 0x4000) as u16,
            data_length: octets::be16(b, 4) as u16,
        }
    }

    /// What parsing `b` gives: a truncation error below six octets, a version
    /// error when the top three bits are not zero, otherwise the header.
    pub open spec fn parsed(b: Seq<u8>) -> Result<PrimaryHeader, Error> {
        if b.len() < PRIMARY_HEADER_LEN {
            Err(Error::Truncated { need: PRIMARY_HEADER_LEN, got: b.len() as usize })
        } else if b[0] / 0x20 != 0 {
            Err(Error::BadVersion((b[0] / 0x20) as u8))
        } else {
            Ok(PrimaryHeader::of_octets(b))
        }
    }

    pub fn parse(bytes: &[u8]) -> (res: Result<Self, Error>)
        ensures
            res == PrimaryHeader::parsed(bytes@),
            res matches Ok(h) ==> h.fits(),
    {
        if bytes.len() < PRIMARY_HEADER_LEN {
            return Err(Error::Truncated { need: PRIMARY_HEADER_LEN, got: bytes.len() });
        }
        let w0: u16 = octets::read_be16(bytes, 0);
        let w1: u16 = octets::read_be16(bytes, 2);
        let w2: u16 = octets::read_be16(bytes, 4);

        let version: u8 = (w0 / 0x2000) as u8;
        if version != 0 {
            return Err(Error::BadVersion(version));
        }
        Ok(
            PrimaryHeader {
                apid: w0 % 0x800,
                packet_type: if w0 / 0x1000 % 2 == 1 {
                    PacketType::Command
                } else {
                    PacketType::Telemetry
                },
                secondary_header: w0 / 0x800 % 2 == 1,
                seq_flags: SeqFlags::from_bits((w1 / 0x4000) as u8),
                seq_count: w1 % 0x4000,
                data_length: w2,
            },
        )
    }

    /// The first 16 bits as a single value.
    ///
    /// Under the CCSDS v1 message-ID scheme this *is* the cFE message ID, which is
    /// why the lab tools use "stream ID" and "message ID" interchangeably.
    pub fn stream_id(&self) -> (id: u16)
        ensures
            id == self.stream_id_of(),
            id < 0x2000,
    {
        let mut w0: u16 = self.apid % 0x800;
        if self.packet_type == PacketType::Command {
            w0 = w0 + 0x1000;
        }
        if self.secondary_header {
            w0 = w0 + 0x800;
        }
        w0
    }

    /// Total packet length in octets, header included.
    pub fn total_len(&self) -> (len: usize)
        ensures
            len == self.packet_len(),
    {
        self.data_length as usize + PRIMARY_HEADER_LEN + 1
    }

    /// Serialize into the first 6 octets of `out`.
    ///
    /// Bits of `apid` and `seq_count` beyond their wire width are dropped.
    pub fn write(&self, out: &mut [u8]) -> (res: Result<(), Error>)
        ensures
            old(out)@.len() >= 6 ==> res is Ok && final(out)@ == octets::overwrite(
                old(out)@,
                0,
                self.octets(),
            ),
            old(out)@.len() < 6 ==> final(out)@ == old(out)@ && res == Err::<(), Error>(
                Error::BufferTooSmall { need: 6, got: old(out)@.len() as usize },
            ),
    {
        if out.len() < PRIMARY_HEADER_LEN {
            return Err(Error::BufferTooSmall { need: PRIMARY_HEADER_LEN, got: out.len() });
        }
        let w0: u16 = self.stream_id();
        let w1: u16 = self.seq_flags.bits() * 0x4000 + self.seq_count % 0x4000;
        octets::write_be16(out, 0, w0);
        octets::write_be16(out, 2, w1);
        octets::write_be16(out, 4, self.data_length);
        Ok(())
    }

    /// What [`PrimaryHeader::for_total_len`] gives.
    pub open spec fn built(
        apid: u16,
        packet_type: PacketType,
        secondary_header: bool,
        seq_count: u16,
        total_len: usize,
    ) -> Result<PrimaryHeader, Error> {
        if total_len < MIN_PACKET_LEN {
            Err(Error::BufferTooSmall { need: MIN_PACKET_LEN, got: total_len })
        } else if total_len - MIN_PACKET_LEN > u16::MAX {
            Err(Error::PayloadTooLarge(total_len))
        } else {
            Ok(
                PrimaryHeader {
                    apid,
                    packet_type,
                    secondary_header,
                    seq_flags: SeqFlags::Unsegmented,
                    seq_count,
                    data_length: (total_len - MIN_PACKET_LEN) as u16,
                },
            )
        }
    }

    /// Build a header for a packet of `total_len` octets.
    pub fn for_total_len(
        apid: u16,
        packet_type: PacketType,
        secondary_header: bool,
        seq_count: u16,
        total_len: usize,
    ) -> (res: Result<Self, Error>)
        ensures
            res == PrimaryHeader::built(apid, packet_type, secondary_header, seq_count, total_len),
            res matches Ok(h) ==> h.packet_len() == total_len,
    {
        if total_len < MIN_PACKET_LEN {
            return Err(Error::BufferTooSmall { need: MIN_PACKET_LEN, got: total_len });
        }
        let data_length: usize = total_len - MIN_PACKET_LEN;
        if data_length > u16::MAX as usize {
            return Err(Error::PayloadTooLarge(total_len));
        }
        Ok(
            PrimaryHeader {
                apid,
                packet_type,
                secondary_header,
                seq_flags: SeqFlags::Unsegmented,
                seq_count,
                data_length: data_length as u16,
            },
        )
    }
}

/// A header whose fields fit comes back unchanged from its own octets, whatever
/// follows them.
pub proof fn header_survives_the_wire(h: PrimaryHeader, rest: Seq<u8>)
    requires
        h.fits(),
    ensures
        PrimaryHeader::parsed(h.octets() + rest) == Ok::<PrimaryHeader, Error>(h),
{
    let b = h.octets() + rest;
    let w1 = h.seq_flags.code() * 0x4000 + h.seq_count % 0x4000;
    assert(octets::be16(b, 0) == h.stream_id_of());
    assert(octets::be16(b, 2) == w1);
    assert(octets::be16(b, 4) == h.data_length);
    assert(w1 / 0x4000 == h.seq_flags.code());
}

/// Six octets that parse are exactly the ones their header writes back.
pub proof fn parsed_octets_are_rewritten_exactly(b: Seq<u8>)
    requires
        PrimaryHeader::parsed(b) is Ok,
    ensures
        PrimaryHeader::parsed(b)->Ok_0.octets() == b.take(6),
{
    let h = PrimaryHeader::parsed(b)->Ok_0;
    let w0 = octets::be16(b, 0);
    let w1 = octets::be16(b, 2);
    assert(h.stream_id_of() == w0);
    assert(h.seq_flags.code() * 0x4000 + h.seq_count % 0x4000 == w1);
    assert(h.octets() =~= b.take(6));
}

/// Each field of a header stands in its own bits of the six octets, the high octet of
/// each pair first.
pub proof fn each_field_has_its_own_bits(b: Seq<u8>)
    requires
        b.len() >= 6,
        b[0] < 0x20,
    ensures
        PrimaryHeader::parsed(b) matches Ok(h) && {
            &&& h.apid == b[0] % 8 * 0x100 + b[1]
            &&& h.packet_type == (if b[0] / 16 % 2 == 1 {
                PacketType::Command
            } else {
                PacketType::Telemetry
            })
            &&& h.secondary_header == (b[0] / 8 % 2 == 1)
            &&& h.seq_flags == (if b[2] < 0x40 {
                SeqFlags::Continuation
            } else if b[2] < 0x80 {
                SeqFlags::First
            } else if b[2] < 0xC0 {
                SeqFlags::Last
            } else {
                SeqFlags::Unsegmented
            })
            &&& h.seq_count == b[2] % 0x40 * 0x100 + b[3]
            &&& h.data_length == b[4] * 0x100 + b[5]
            &&& h.packet_len() == b[4] * 0x100 + b[5] + 7
            &&& h.stream_id_of() == b[0] * 0x100 + b[1]
        },
{
}

/// A header parses exactly when all of its six octets are there and the version in the
/// top three bits of the first is zero.
pub proof fn a_header_is_refused_for_a_reason(b: Seq<u8>)
    requires
        b.len() <= usize::MAX,
    ensures
        b.len() < 6 ==> PrimaryHeader::parsed(b) == Err::<PrimaryHeader, Error>(
            Error::Truncated { need: 6, got: b.len() as usize },
        ),
        b.len() >= 6 && b[0] >= 0x20 ==> PrimaryHeader::parsed(b) == Err::<PrimaryHeader, Error>(
            Error::BadVersion((b[0] / 0x20) as u8),
        ),
        b.len() >= 6 && b[0] < 0x20 ==> PrimaryHeader::parsed(b) is Ok,
{
}

/// A header is written as three 16-bit words, the high octet of each first: the stream
/// ID, the flags over the sequence count, and the length. What does not fit is dropped.
pub proof fn a_header_is_three_words(h: PrimaryHeader)
    ensures
        ({
            let o = h.octets();
            &&& o.len() == 6
            &&& o[0] * 0x100 + o[1] == h.apid % 0x800 + (if h.packet_type == PacketType::Command {
                0x1000int
            } else {
                0
            }) + (if h.secondary_header {
                0x800int
            } else {
                0
            })
            &&& o[0] * 0x100 + o[1] == h.stream_id_of()
            &&& o[2] * 0x100 + o[3] == h.seq_count % 0x4000 + (match h.seq_flags {
                SeqFlags::Continuation => 0int,
                SeqFlags::First => 0x4000,
                SeqFlags::Last => 0x8000,
                SeqFlags::Unsegmented => 0xC000,
            })
            &&& o[4] * 0x100 + o[5] == h.data_length
        }),
{
}

/// A header is built for every length from the shortest packet to what the length field
/// can say, announces exactly that length, and is refused for any other.
pub proof fn a_built_header_announces_its_length(
    apid: u16,
    packet_type: PacketType,
    secondary_header: bool,
    seq_count: u16,
    total_len: usize,
)
    ensures
        ({
            let r = PrimaryHeader::built(apid, packet_type, secondary_header, seq_count, total_len);
            &&& r is Ok <==> 7 <= total_len <= 65542
            &&& total_len < 7 ==> r == Err::<PrimaryHeader, Error>(
                Error::BufferTooSmall { need: 7, got: total_len },
            )
            &&& total_len > 65542 ==> r == Err::<PrimaryHeader, Error>(
                Error::PayloadTooLarge(total_len),
            )
            &&& r matches Ok(h) ==> {
                &&& h.data_length + 7 == total_len
                &&& h.apid == apid
                &&& h.packet_type == packet_type
                &&& h.secondary_header == secondary_header
                &&& h.seq_count == seq_count
                &&& h.seq_flags == SeqFlags::Unsegmented
            }
        }),
{
}

/// Sequence flags and their two bits stand for each other, one for one.
pub proof fn sequence_flags_are_their_two_bits(f: SeqFlags, bits: int)
    requires
        0 <= bits,
    ensures
        SeqFlags::of_bits(f.code()) == f,
        SeqFlags::of_bits(bits).code() == bits % 4,
        f == SeqFlags::Unsegmented <==> f.code() == 3,
        f == SeqFlags::First <==> f.code() == 1,
        f == SeqFlags::Last <==> f.code() == 2,
{
}

} // verus!
