use vstd::prelude::*;

use crate::ccsds::error::Error;
use crate::ccsds::primary::{PacketType, PrimaryHeader};
use crate::ccsds::secondary::{CmdSecondaryHeader, TlmSecondaryHeader};

verus! {

/// Octets of padding cFE puts between the telemetry secondary header and the
/// application payload.
///
/// `CFE_MSG_TelemetryHeader_t` is `{ Msg, Sec, uint8 Spare[4] }`: the spare exists
/// so a payload needing 64-bit alignment does not make the compiler insert padding
/// of its own. It is **not** part of CCSDS and it is **not** present on command
/// packets, whose header is just `{ Msg, Sec }`.
pub const CFE_TLM_SPARE_LEN: usize = 4;

/// A borrowed, validated view over a complete space packet.
///
/// Its model is the packet's octets, header included.
#[derive(Clone, Copy, Debug, PartialEq, Eq)]
pub struct SpacePacket<'a> {
    primary: PrimaryHeader,
    bytes: &'a [u8],
}

impl<'a> View for SpacePacket<'a> {
    type V = Seq<u8>;

    closed spec fn view(&self) -> Seq<u8> {
        self.bytes@
    }
}

/// `b` is exactly one packet: its header parses and announces its length.
pub open spec fn is_packet(b: Seq<u8>) -> bool {
    &&& PrimaryHeader::parsed(b) is Ok
    &&& b.len() == PrimaryHeader::of_octets(b).packet_len()
}

/// The packet at the front of `b`, if there is one.
pub open spec fn front_packet(b: Seq<u8>) -> Result<Seq<u8>, Error> {
    match PrimaryHeader::parsed(b) {
        Err(e) => Err(e),
        Ok(h) => if b.len() < h.packet_len() {
            Err(Error::Truncated { need: h.packet_len() as usize, got: b.len() as usize })
        } else {
            Ok(b.take(h.packet_len()))
        },
    }
}

/// The command secondary header of a packet.
pub open spec fn cmd_secondary_of(packet: Seq<u8>) -> Result<CmdSecondaryHeader, Error> {
    let h = PrimaryHeader::of_octets(packet);
    if h.packet_type != PacketType::Command {
        Err(Error::WrongPacketType)
    } else if !h.secondary_header {
        Err(Error::NoSecondaryHeader)
    } else {
        CmdSecondaryHeader::parsed(packet.skip(6))
    }
}

/// The telemetry secondary header of a packet.
pub open spec fn tlm_secondary_of(packet: Seq<u8>) -> Result<TlmSecondaryHeader, Error> {
    let h = PrimaryHeader::of_octets(packet);
    if h.packet_type != PacketType::Telemetry {
        Err(Error::WrongPacketType)
    } else if !h.secondary_header {
        Err(Error::NoSecondaryHeader)
    } else {
        TlmSecondaryHeader::parsed(packet.skip(6))
    }
}

/// `packet` from octet `at` on, or how much of it is missing.
pub open spec fn tail_from(packet: Seq<u8>, at: int) -> Result<Seq<u8>, Error> {
    if packet.len() < at {
        Err(Error::Truncated { need: at as usize, got: packet.len() as usize })
    } else {
        Ok(packet.skip(at))
    }
}

/// Octets of secondary header CCSDS says the packet has.
pub open spec fn secondary_len_of(h: PrimaryHeader) -> int {
    if !h.secondary_header {
        0
    } else {
        match h.packet_type {
            PacketType::Command => 2,
            PacketType::Telemetry => 6,
        }
    }
}

/// The CCSDS payload of a packet: everything after the secondary header.
pub open spec fn payload_of(packet: Seq<u8>) -> Result<Seq<u8>, Error> {
    tail_from(packet, 6 + secondary_len_of(PrimaryHeader::of_octets(packet)))
}

/// The cFE application payload of a telemetry packet, which starts at octet 16.
pub open spec fn cfe_tlm_payload_of(packet: Seq<u8>) -> Result<Seq<u8>, Error> {
    let h = PrimaryHeader::of_octets(packet);
    if h.packet_type != PacketType::Telemetry {
        Err(Error::WrongPacketType)
    } else if !h.secondary_header {
        Err(Error::NoSecondaryHeader)
    } else {
        tail_from(packet, 16)
    }
}

/// A result holding octets, seen through the view of the slice.
pub open spec fn octets_result(res: Result<&[u8], Error>) -> Result<Seq<u8>, Error> {
    match res {
        Ok(s) => Ok(s@),
        Err(e) => Err(e),
    }
}

impl<'a> SpacePacket<'a> {
    #[verifier::type_invariant]
    closed spec fn well_formed(self) -> bool {
        &&& PrimaryHeader::parsed(self.bytes@) == Ok::<PrimaryHeader, Error>(self.primary)
        &&& self.bytes@.len() == self.primary.packet_len()
    }

    /// Parse a packet from the front of `bytes`.
    ///
    /// The slice may be longer than the packet; trailing bytes are ignored and
    /// [`SpacePacket::total_len`] tells the caller how far to advance. This is
    /// what makes stream framing possible, though over UDP each datagram is
    /// expected to hold exactly one packet.
    pub fn parse(bytes: &'a [u8]) -> (res: Result<Self, Error>)
        ensures
            match res {
                Ok(p) => front_packet(bytes@) == Ok::<Seq<u8>, Error>(p@) && is_packet(p@),
                Err(e) => front_packet(bytes@) == Err::<Seq<u8>, Error>(e),
            },
    {
        let primary = match PrimaryHeader::parse(bytes) {
            Ok(h) => h,
            Err(e) => {
                return Err(e);
            },
        };
        let total: usize = primary.total_len();
        if bytes.len() < total {
            return Err(Error::Truncated { need: total, got: bytes.len() });
        }
        let own = vstd::slice::slice_subrange(bytes, 0, total);
        assert(own@ =~= bytes@.take(total as int));
        Ok(SpacePacket { primary, bytes: own })
    }

    /// The parsed primary header.
    pub fn primary(&self) -> (h: PrimaryHeader)
        ensures
            h == PrimaryHeader::of_octets(self@),
            h.fits(),
            is_packet(self@),
    {
        proof {
            use_type_invariant(self);
        }
        self.primary
    }

    /// Whole packet, header included.
    pub fn bytes(&self) -> (b: &'a [u8])
        ensures
            b@ == self@,
            is_packet(self@),
    {
        proof {
            use_type_invariant(self);
        }
        self.bytes
    }

    /// Total packet length in octets (`PacketDataLength + 7`).
    pub fn total_len(&self) -> (len: usize)
        ensures
            len == self@.len(),
            len == PrimaryHeader::of_octets(self@).packet_len(),
    {
        proof {
            use_type_invariant(self);
        }
        self.bytes.len()
    }

    /// Everything after the primary header, secondary header included.
    pub fn data_field(&self) -> (d: &'a [u8])
        ensures
            d@ == self@.skip(6),
            d@.len() >= 1,
    {
        proof {
            use_type_invariant(self);
        }
        let d = vstd::slice::slice_subrange(self.bytes, 6, self.bytes.len());
        assert(d@ =~= self@.skip(6));
        d
    }

    /// The command secondary header, if this is a command packet carrying one.
    pub fn cmd_secondary(&self) -> (res: Result<CmdSecondaryHeader, Error>)
        ensures
            res == cmd_secondary_of(self@),
    {
        proof {
            use_type_invariant(self);
        }
        if self.primary.packet_type != PacketType::Command {
            return Err(Error::WrongPacketType);
        }
        if !self.primary.secondary_header {
            return Err(Error::NoSecondaryHeader);
        }
        CmdSecondaryHeader::parse(self.data_field())
    }

    /// The telemetry secondary header, if this is a telemetry packet carrying one.
    pub fn tlm_secondary(&self) -> (res: Result<TlmSecondaryHeader, Error>)
        ensures
            res == tlm_secondary_of(self@),
    {
        proof {
            use_type_invariant(self);
        }
        if self.primary.packet_type != PacketType::Telemetry {
            return Err(Error::WrongPacketType);
        }
        if !self.primary.secondary_header {
            return Err(Error::NoSecondaryHeader);
        }
        TlmSecondaryHeader::parse(self.data_field())
    }

    fn tail(&self, at: usize) -> (res: Result<&'a [u8], Error>)
        ensures
            octets_result(res) == tail_from(self@, at as int),
    {
        if self.bytes.len() < at {
            return Err(Error::Truncated { need: at, got: self.bytes.len() });
        }
        let t = vstd::slice::slice_subrange(self.bytes, at, self.bytes.len());
        assert(t@ =~= self@.skip(at as int));
        Ok(t)
    }

    /// Application payload: the data field with the secondary header removed.
    ///
    /// The whole data field when no secondary header is present.
    pub fn payload(&self) -> (res: Result<&'a [u8], Error>)
        ensures
            octets_result(res) == payload_of(self@),
    {
        proof {
            use_type_invariant(self);
        }
        let skip: usize = if !self.primary.secondary_header {
            0
        } else {
            match self.primary.packet_type {
                PacketType::Command => 2,
                PacketType::Telemetry => 6,
            }
        };
        self.tail(6 + skip)
    }

    /// The **cFE** application payload of a telemetry packet.
    ///
    /// [`SpacePacket::payload`] is CCSDS-correct: data field minus secondary
    /// header. cFE puts [`CFE_TLM_SPARE_LEN`] octets of alignment padding after
    /// the telemetry secondary header, so for real cFE telemetry it returns the
    /// spare followed by the payload, and every field is four octets early.
    ///
    /// Nothing rejects the packet when that happens, no length check trips, and
    /// the decoded values are plausible garbage. Use this accessor for anything
    /// cFE emitted.
    pub fn cfe_tlm_payload(&self) -> (res: Result<&'a [u8], Error>)
        ensures
            octets_result(res) == cfe_tlm_payload_of(self@),
    {
        proof {
            use_type_invariant(self);
        }
        if self.primary.packet_type != PacketType::Telemetry {
            return Err(Error::WrongPacketType);
        }
        if !self.primary.secondary_header {
            return Err(Error::NoSecondaryHeader);
        }
        self.tail(6 + TlmSecondaryHeader::LEN + CFE_TLM_SPARE_LEN)
    }
}

/// The packets at the front of `b`, back to back, up to the first octets that are
/// not one.
pub open spec fn packets_in(b: Seq<u8>) -> Seq<Seq<u8>>
    decreases b.len(),
{
    match front_packet(b) {
        Ok(p) => if 0 < p.len() <= b.len() {
            seq![p] + packets_in(b.skip(p.len() as int))
        } else {
            seq![]
        },
        Err(_) => seq![],
    }
}

/// What is left of `b` once those packets are taken off.
pub open spec fn remainder_of(b: Seq<u8>) -> Seq<u8>
    decreases b.len(),
{
    match front_packet(b) {
        Ok(p) => if 0 < p.len() <= b.len() {
            remainder_of(b.skip(p.len() as int))
        } else {
            b
        },
        Err(_) => b,
    }
}

/// Walks back-to-back packets in a buffer, stopping at the first malformed or
/// truncated one.
///
/// The shape a stream transport needs. Its model is the octets not yet consumed.
pub struct PacketIter<'a> {
    rest: &'a [u8],
}

impl<'a> View for PacketIter<'a> {
    type V = Seq<u8>;

    closed spec fn view(&self) -> Seq<u8> {
        self.rest@
    }
}

impl<'a> PacketIter<'a> {
    pub fn new(bytes: &'a [u8]) -> (it: Self)
        ensures
            it@ == bytes@,
    {
        PacketIter { rest: bytes }
    }

    /// Bytes not yet consumed: a partial packet at the end of a stream buffer.
    pub fn remainder(&self) -> (r: &'a [u8])
        ensures
            r@ == self@,
    {
        self.rest
    }

    /// The next packet, if the unconsumed bytes start with one. The bytes stay
    /// where they are otherwise.
    pub fn next(&mut self) -> (res: Option<SpacePacket<'a>>)
        ensures
            match res {
                Some(p) => {
                    &&& is_packet(p@)
                    &&& front_packet(old(self)@) == Ok::<Seq<u8>, Error>(p@)
                    &&& final(self)@ == old(self)@.skip(p@.len() as int)
                    &&& packets_in(old(self)@) == seq![p@] + packets_in(final(self)@)
                    &&& final(self)@.len() < old(self)@.len()
                },
                None => {
                    &&& front_packet(old(self)@) is Err
                    &&& final(self)@ == old(self)@
                    &&& packets_in(old(self)@) == Seq::<Seq<u8>>::empty()
                },
            },
            remainder_of(final(self)@) == remainder_of(old(self)@),
    {
        match SpacePacket::parse(self.rest) {
            Ok(pkt) => {
                let n: usize = pkt.total_len();
                let rest = vstd::slice::slice_subrange(self.rest, n, self.rest.len());
                assert(rest@ =~= self.rest@.skip(n as int));
                self.rest = rest;
                Some(pkt)
            },
            Err(_) => None,
        }
    }
}

/// A complete packet is recognised whatever follows it: packets are
/// self-delimiting.
pub proof fn a_packet_is_self_delimiting(p: Seq<u8>, rest: Seq<u8>)
    requires
        is_packet(p),
    ensures
        front_packet(p + rest) == Ok::<Seq<u8>, Error>(p),
{
    assert(PrimaryHeader::of_octets(p + rest) == PrimaryHeader::of_octets(p));
    assert((p + rest).take(p.len() as int) =~= p);
}

/// A stream of complete packets followed by something that is not one reframes
/// into exactly those packets, and leaves exactly that something.
pub proof fn a_stream_of_packets_reframes_exactly(ps: Seq<Seq<u8>>, tail: Seq<u8>)
    requires
        forall|i: int| 0 <= i < ps.len() ==> is_packet(#[trigger] ps[i]),
        front_packet(tail) is Err,
    ensures
        packets_in(ps.flatten() + tail) == ps,
        remainder_of(ps.flatten() + tail) == tail,
    decreases ps.len(),
{
    if ps.len() == 0 {
        assert(ps.flatten() + tail =~= tail);
        assert(packets_in(tail) =~= ps);
    } else {
        let p = ps.first();
        let more = ps.drop_first();
        assert(is_packet(ps[0]));
        assert forall|i: int| 0 <= i < more.len() implies is_packet(#[trigger] more[i]) by {
            assert(more[i] == ps[i + 1]);
        }
        a_stream_of_packets_reframes_exactly(more, tail);
        let b = ps.flatten() + tail;
        assert(b =~= p + (more.flatten() + tail));
        a_packet_is_self_delimiting(p, more.flatten() + tail);
        assert(b.skip(p.len() as int) =~= more.flatten() + tail);
        assert(packets_in(b) =~= ps);
    }
}

/// The packets taken off a buffer, followed by what is left of it, are the buffer.
pub proof fn no_octet_of_a_stream_is_lost(b: Seq<u8>)
    ensures
        packets_in(b).flatten() + remainder_of(b) == b,
    decreases b.len(),
{
    match front_packet(b) {
        Ok(p) => {
            let rest = b.skip(p.len() as int);
            no_octet_of_a_stream_is_lost(rest);
            let ps = packets_in(b);
            assert(ps.drop_first() =~= packets_in(rest));
            assert(ps.first() == p);
            assert(ps.flatten() =~= p + packets_in(rest).flatten());
            assert(packets_in(b).flatten() + remainder_of(b) =~= p + rest);
            assert(p + rest =~= b);
        },
        Err(_) => {
            assert(packets_in(b).flatten() =~= Seq::<u8>::empty());
            assert(packets_in(b).flatten() + remainder_of(b) =~= b);
        },
    }
}

/// Reading a cFE telemetry payload without its alignment spare gives the spare
/// followed by the payload: the same octets, four late.
pub proof fn the_plain_payload_is_the_spare_and_the_cfe_payload(packet: Seq<u8>)
    requires
        cfe_tlm_payload_of(packet) is Ok,
    ensures
        payload_of(packet) is Ok,
        payload_of(packet)->Ok_0.skip(4) == cfe_tlm_payload_of(packet)->Ok_0,
{
    assert(packet.skip(12).skip(4) =~= packet.skip(16));
}

/// The packet at the front of a buffer is as long as its length field says, seven more
/// than the field; a buffer that ends before that, or before the length field, is
/// truncated.
pub proof fn a_packet_is_as_long_as_it_says(b: Seq<u8>)
    requires
        b.len() <= usize::MAX,
    ensures
        b.len() < 6 ==> front_packet(b) == Err::<Seq<u8>, Error>(
            Error::Truncated { need: 6, got: b.len() as usize },
        ),
        b.len() >= 6 && b[0] >= 0x20 ==> front_packet(b) == Err::<Seq<u8>, Error>(
            Error::BadVersion((b[0] / 0x20) as u8),
        ),
        b.len() >= 6 && b[0] < 0x20 ==> {
            let n = b[4] * 0x100 + b[5] + 7;
            &&& b.len() < n ==> front_packet(b) == Err::<Seq<u8>, Error>(
                Error::Truncated { need: n as usize, got: b.len() as usize },
            )
            &&& b.len() >= n ==> front_packet(b) == Ok::<Seq<u8>, Error>(b.take(n))
            &&& is_packet(b) <==> b.len() == n
        },
{
}

/// The secondary header of a packet stands right behind the six octets of the first
/// one, and is read only where the packet's type and flag say that it is there.
pub proof fn a_secondary_header_follows_the_primary(p: Seq<u8>)
    requires
        is_packet(p),
    ensures
        ({
            let command = p[0] / 16 % 2 == 1;
            let flagged = p[0] / 8 % 2 == 1;
            &&& !command ==> cmd_secondary_of(p) == Err::<CmdSecondaryHeader, Error>(
                Error::WrongPacketType,
            )
            &&& command ==> tlm_secondary_of(p) == Err::<TlmSecondaryHeader, Error>(
                Error::WrongPacketType,
            )
            &&& command && !flagged ==> cmd_secondary_of(p) == Err::<CmdSecondaryHeader, Error>(
                Error::NoSecondaryHeader,
            )
            &&& !command && !flagged ==> tlm_secondary_of(p) == Err::<TlmSecondaryHeader, Error>(
                Error::NoSecondaryHeader,
            )
            &&& command && flagged && p.len() >= 8 ==> (cmd_secondary_of(p) matches Ok(h)
                && h.function_code == p[6] % 0x80 && h.checksum == p[7])
            &&& command && flagged && p.len() < 8 ==> (cmd_secondary_of(p) matches Err(
                Error::Truncated { need, got },
            ) && need == 2 && got == p.len() - 6)
            &&& !command && flagged && p.len() >= 12 ==> (tlm_secondary_of(p) matches Ok(h)
                && h.seconds == ((p[6] * 0x100 + p[7]) * 0x100 + p[8]) * 0x100 + p[9]
                && h.subseconds == p[10] * 0x100 + p[11])
            &&& !command && flagged && p.len() < 12 ==> (tlm_secondary_of(p) matches Err(
                Error::Truncated { need, got },
            ) && need == 6 && got == p.len() - 6)
        }),
{
}

/// The payload of a packet starts at octet 6, 8 or 12 by its type and flag, and that of
/// a cFE telemetry packet at octet 16.
pub proof fn a_payload_starts_where_its_headers_end(p: Seq<u8>)
    requires
        is_packet(p),
    ensures
        ({
            let command = p[0] / 16 % 2 == 1;
            let flagged = p[0] / 8 % 2 == 1;
            let at = if !flagged {
                6int
            } else if command {
                8
            } else {
                12
            };
            &&& p.len() >= at ==> payload_of(p) == Ok::<Seq<u8>, Error>(p.skip(at))
            &&& p.len() < at ==> payload_of(p) == Err::<Seq<u8>, Error>(
                Error::Truncated { need: at as usize, got: p.len() as usize },
            )
            &&& command ==> cfe_tlm_payload_of(p) == Err::<Seq<u8>, Error>(Error::WrongPacketType)
            &&& !command && !flagged ==> cfe_tlm_payload_of(p) == Err::<Seq<u8>, Error>(
                Error::NoSecondaryHeader,
            )
            &&& !command && flagged && p.len() >= 16 ==> cfe_tlm_payload_of(p) == Ok::<
                Seq<u8>,
                Error,
            >(p.skip(16))
            &&& !command && flagged && p.len() < 16 ==> cfe_tlm_payload_of(p) == Err::<
                Seq<u8>,
                Error,
            >(Error::Truncated { need: 16, got: p.len() as usize })
        }),
{
}

} // verus!
