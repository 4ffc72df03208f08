//! A stand-in for a running cFS: how it reads what is sent to it, what it answers
//! with, when, and where to.
//!
//! It deliberately imitates `to_lab`'s handshake: nothing is sent until an
//! enable-output command arrives. Its packets are framed exactly as cFE frames
//! telemetry, alignment spare included, so what works against it works against the
//! real thing.

use vstd::prelude::*;

use crate::ccsds::error::Error;
use crate::ccsds::packet;
use crate::ccsds::packet::SpacePacket;
use crate::ccsds::primary;
use crate::ccsds::primary::{PacketType, PrimaryHeader, SeqFlags};
use crate::ccsds::secondary;
use crate::ccsds::secondary::TlmSecondaryHeader;
use crate::flight;
use crate::flight::vehicle_command;
use crate::link;
use crate::model::state;
use crate::model::state::{encode_vehicle_state, Sample, SpacecraftState};
use crate::msg::ids::{MsgId, MsgIds};
use crate::msg::to_lab;
use crate::octets;
use crate::vehicle::Command;

verus! {

/// What an uplinked datagram turned out to be.
#[derive(Debug)]
pub enum Incoming {
    /// `to_lab` enable-output, naming in text where telemetry should go.
    EnableOutput(Vec<u8>),
    /// A `RUST_APP` command this stand-in knows how to apply.
    Vehicle(Command),
    /// Anything else, including `to_lab` add-packet: a real `to_lab` has a
    /// subscription table to maintain and this does not, so those are acknowledged
    /// by being ignored rather than by being wrong.
    Other,
}

/// What a datagram means.
pub enum Meaning {
    EnableOutput(Seq<u8>),
    Vehicle(Command),
    Other,
}

impl View for Incoming {
    type V = Meaning;

    open spec fn view(&self) -> Meaning {
        match self {
            Incoming::EnableOutput(address) => Meaning::EnableOutput(address@),
            Incoming::Vehicle(cmd) => Meaning::Vehicle(*cmd),
            Incoming::Other => Meaning::Other,
        }
    }
}

/// `b` without the NULs at its end.
pub open spec fn without_nul_padding(b: Seq<u8>) -> Seq<u8>
    decreases b.len(),
{
    if b.len() > 0 && b.last() == 0 {
        without_nul_padding(b.drop_last())
    } else {
        b
    }
}

/// What a datagram means to the stand-in.
pub open spec fn meaning_of(datagram: Seq<u8>) -> Meaning {
    let ids = MsgIds::defaults();
    match packet::front_packet(datagram) {
        Err(_) => Meaning::Other,
        Ok(p) => match packet::cmd_secondary_of(p) {
            Err(_) => Meaning::Other,
            Ok(h) => {
                let stream = PrimaryHeader::of_octets(p).stream_id_of();
                if stream == ids.rust_app_cmd.0 {
                    match flight::command_for(h.function_code) {
                        Some(cmd) => Meaning::Vehicle(cmd),
                        None => Meaning::Other,
                    }
                } else if stream == ids.to_lab_cmd.0 && h.function_code
                    == to_lab::OUTPUT_ENABLE_CC {
                    match packet::payload_of(p) {
                        Ok(payload) => Meaning::EnableOutput(without_nul_padding(payload)),
                        Err(_) => Meaning::Other,
                    }
                } else {
                    Meaning::Other
                }
            },
        },
    }
}

fn strip_nul_padding(b: &[u8]) -> (v: Vec<u8>)
    ensures
        v@ == without_nul_padding(b@),
{
    let mut n: usize = b.len();
    assert(b@.take(n as int) =~= b@);
    while n > 0 && b[n - 1] == 0
        invariant
            n <= b@.len(),
            without_nul_padding(b@) == without_nul_padding(b@.take(n as int)),
        decreases n,
    {
        assert(b@.take(n as int).drop_last() =~= b@.take(n - 1));
        n = n - 1;
    }
    let kept = vstd::slice::slice_subrange(b, 0, n);
    assert(kept@ =~= b@.take(n as int));
    octets::to_vec(kept)
}

/// Classify an uplinked command.
pub fn handle_command(datagram: &[u8]) -> (m: Incoming)
    ensures
        m@ == meaning_of(datagram@),
{
    let pkt = match SpacePacket::parse(datagram) {
        Ok(p) => p,
        Err(_) => {
            return Incoming::Other;
        },
    };
    let header = match pkt.cmd_secondary() {
        Ok(h) => h,
        Err(_) => {
            return Incoming::Other;
        },
    };
    let ids = MsgIds::lab_defaults();
    let stream: u16 = pkt.primary().stream_id();
    if stream == ids.rust_app_cmd.0 {
        return match vehicle_command(header.function_code) {
            Some(cmd) => Incoming::Vehicle(cmd),
            None => Incoming::Other,
        };
    }
    if stream != ids.to_lab_cmd.0 || header.function_code != to_lab::OUTPUT_ENABLE_CC {
        return Incoming::Other;
    }
    match pkt.payload() {
        Ok(payload) => Incoming::EnableOutput(strip_nul_padding(payload)),
        Err(_) => Incoming::Other,
    }
}

/// Every octet is zero.
pub open spec fn all_zero(b: Seq<u8>) -> bool {
    forall|i: int| 0 <= i < b.len() ==> #[trigger] b[i] == 0
}

/// Where telemetry should go: the address the command named, if it names a usable
/// one, otherwise where the command came from. Addresses are their octets, four or
/// sixteen.
pub open spec fn chosen(named: Option<Seq<u8>>, from: Seq<u8>) -> Seq<u8> {
    match named {
        Some(a) => if all_zero(a) {
            from
        } else {
            a
        },
        None => from,
    }
}

/// An optional address as its octets.
pub open spec fn address_in(a: Option<Vec<u8>>) -> Option<Seq<u8>> {
    match a {
        Some(a) => Some(a@),
        None => None,
    }
}

/// Choose where telemetry should go.
///
/// The named address is what a real `to_lab` honors, but it is often unroutable
/// from here, a container's view of the host. Falling back to the sender is what
/// makes the stand-in usable on a laptop.
pub fn choose_destination(named: Option<Vec<u8>>, from: Vec<u8>) -> (dest: Vec<u8>)
    ensures
        dest@ == chosen(address_in(named), from@),
{
    let a = match named {
        Some(a) => a,
        None => {
            return from;
        },
    };
    let mut i: usize = 0;
    while i < a.len()
        invariant
            named == Some(a),
            i <= a@.len(),
            forall|j: int| 0 <= j < i ==> #[trigger] a@[j] == 0,
        decreases a@.len() - i,
    {
        if a[i] != 0 {
            return a;
        }
        i = i + 1;
    }
    from
}

/// The primary header of a vehicle-state packet.
pub open spec fn vehicle_header(seq: u16) -> PrimaryHeader {
    PrimaryHeader {
        apid: 0x092,
        packet_type: PacketType::Telemetry,
        secondary_header: true,
        seq_flags: SeqFlags::Unsegmented,
        seq_count: seq,
        data_length: 50,
    }
}

/// A vehicle-state packet: header, timestamp, four octets of alignment spare,
/// payload.
pub open spec fn vehicle_packet(seq: u16, time: TlmSecondaryHeader, s: SpacecraftState) -> Seq<u8> {
    vehicle_header(seq).octets() + time.octets() + seq![0u8, 0u8, 0u8, 0u8] + s.octets()
}

/// Build a vehicle-state packet with sequence count `seq`, and step the count.
pub fn build_vehicle_packet(seq: &mut u16, time: TlmSecondaryHeader, s: &SpacecraftState) -> (out: Vec<
    u8,
>)
    ensures
        out@ == vehicle_packet(*old(seq), time, *s),
        *final(seq) == link::seq_after(*old(seq)),
{
    let header = PrimaryHeader {
        apid: 0x092,
        packet_type: PacketType::Telemetry,
        secondary_header: true,
        seq_flags: SeqFlags::Unsegmented,
        seq_count: *seq,
        data_length: 50,
    };
    let mut front: [u8; 16] = [0u8;16];
    let _ = header.write(&mut front);
    let mut stamp: [u8; 6] = [0u8;6];
    let _ = time.write(&mut stamp);
    assert(stamp@ =~= time.octets());
    octets::write_octets(&mut front, 6, &stamp);
    assert(front@ =~= vehicle_header(*old(seq)).octets() + time.octets() + seq![0u8, 0u8, 0u8, 0u8]);
    let mut out = octets::to_vec(&front);
    let payload = encode_vehicle_state(s);
    octets::push_octets(&mut out, payload.as_slice());
    *seq = ((*seq as u32 + 1) % 0x4000) as u16;
    out
}

/// The timestamp of an instant, as a header.
pub open spec fn stamped(seconds: u64, nanos: u32) -> TlmSecondaryHeader {
    TlmSecondaryHeader {
        seconds: (seconds % 0x1_0000_0000) as u32,
        subseconds: (nanos * 0x1_0000 / 1_000_000_000) as u16,
    }
}

/// The timestamp of an instant `nanos` nanoseconds past `seconds`.
pub fn stamp(seconds: u64, nanos: u32) -> (t: TlmSecondaryHeader)
    requires
        nanos < 1_000_000_000,
    ensures
        t.seconds == seconds % 0x1_0000_0000,
        t.subseconds == nanos * 0x1_0000 / 1_000_000_000,
        t == stamped(seconds, nanos),
{
    TlmSecondaryHeader {
        seconds: (seconds % 0x1_0000_0000) as u32,
        subseconds: (nanos as u64 * 0x1_0000 / 1_000_000_000) as u16,
    }
}

/// One period after `t`, or the end of the clock.
pub open spec fn one_later(t: u128, period: u128) -> u128 {
    if t + period > u128::MAX {
        u128::MAX
    } else {
        (t + period) as u128
    }
}

/// When to send next, if `next` is due at `now`.
pub open spec fn rescheduled(now: u128, next: u128, period: u128) -> Option<u128> {
    if now < next {
        None
    } else if one_later(next, period) < now {
        Some(one_later(now, period))
    } else {
        Some(one_later(next, period))
    }
}

/// When to send next.
///
/// `None` until `next` is due. Then the schedule moves by exactly one period rather
/// than restarting from now, so a late wake-up does not push every later packet
/// late as well; unless that is already past, in which case it does restart.
pub fn reschedule(now: u128, next: u128, period: u128) -> (due: Option<u128>)
    ensures
        due == rescheduled(now, next, period),
{
    if now < next {
        return None;
    }
    let stepped: u128 = next.saturating_add(period);
    if stepped < now {
        Some(now.saturating_add(period))
    } else {
        Some(stepped)
    }
}

/// Where the stand-in stands: where telemetry goes, the next packet's sequence count,
/// and when it is due.
#[verifier::ext_equal]
pub struct StandinModel {
    /// Nowhere, until output is enabled.
    pub dest: Option<Seq<u8>>,
    pub seq: u16,
    pub next: u128,
}

impl StandinModel {
    pub open spec fn started() -> StandinModel {
        StandinModel { dest: None, seq: 0, next: 0 }
    }

    /// After a command. Only enable-output moves the destination.
    pub open spec fn heard(
        self,
        meaning: Meaning,
        named: Option<Seq<u8>>,
        from: Seq<u8>,
    ) -> StandinModel {
        match meaning {
            Meaning::EnableOutput(_) => StandinModel { dest: Some(chosen(named, from)), ..self },
            _ => self,
        }
    }

    /// What goes out at `now`, and where to.
    pub open spec fn sending(
        self,
        now: u128,
        time: TlmSecondaryHeader,
        s: SpacecraftState,
    ) -> Option<(Seq<u8>, Seq<u8>)> {
        if now >= self.next && self.dest is Some {
            Some((self.dest->0, vehicle_packet(self.seq, time, s)))
        } else {
            None
        }
    }

    /// After a wake-up at `now`. The schedule runs whether or not anyone listens; the
    /// sequence count moves with what is sent.
    pub open spec fn woken(self, now: u128, period: u128) -> StandinModel {
        match rescheduled(now, self.next, period) {
            None => self,
            Some(next) => StandinModel {
                next,
                seq: if self.dest is Some {
                    link::seq_after(self.seq)
                } else {
                    self.seq
                },
                ..self
            },
        }
    }
}

/// The stand-in's side of the handshake: telemetry is withheld until an enable-output
/// command arrives.
#[derive(Debug)]
pub struct Standin {
    dest: Option<Vec<u8>>,
    seq: u16,
    next: u128,
}

impl View for Standin {
    type V = StandinModel;

    closed spec fn view(&self) -> StandinModel {
        StandinModel { dest: address_in(self.dest), seq: self.seq, next: self.next }
    }
}

/// The command to fly, if that is what was heard.
pub open spec fn to_fly(meaning: Meaning) -> Option<Command> {
    match meaning {
        Meaning::Vehicle(c) => Some(c),
        _ => None,
    }
}

impl Standin {
    pub fn new() -> (s: Self)
        ensures
            s@ == StandinModel::started(),
    {
        Standin { dest: None, seq: 0, next: 0 }
    }

    /// Where telemetry goes, once output is enabled.
    pub fn destination(&self) -> (d: Option<&Vec<u8>>)
        ensures
            match d {
                Some(a) => self@.dest == Some(a@),
                None => self@.dest is None,
            },
    {
        match &self.dest {
            Some(a) => Some(a),
            None => None,
        }
    }

    /// Act on a command that came from `from`, whose text names the address `named` if
    /// it reads as one. A vehicle command is handed back to be flown.
    pub fn on_command(
        &mut self,
        heard: &Incoming,
        named: Option<Vec<u8>>,
        from: Vec<u8>,
    ) -> (cmd: Option<Command>)
        ensures
            final(self)@ == old(self)@.heard(heard@, address_in(named), from@),
            cmd == (match heard@ {
                Meaning::Vehicle(c) => Some(c),
                _ => None,
            }),
            cmd == to_fly(heard@),
    {
        match heard {
            Incoming::EnableOutput(_) => {
                self.dest = Some(choose_destination(named, from));
                None
            },
            Incoming::Vehicle(c) => Some(*c),
            Incoming::Other => None,
        }
    }

    /// Wake up at `now`: the packet to send and where to, if one is due and output is
    /// enabled. `time` and `s` are what it says.
    pub fn tick(
        &mut self,
        now: u128,
        period: u128,
        time: TlmSecondaryHeader,
        s: &SpacecraftState,
    ) -> (sent: Option<(Vec<u8>, Vec<u8>)>)
        ensures
            match sent {
                Some((to, packet)) => old(self)@.sending(now, time, *s) == Some((to@, packet@)),
                None => old(self)@.sending(now, time, *s) is None,
            },
            final(self)@ == old(self)@.woken(now, period),
    {
        match reschedule(now, self.next, period) {
            None => None,
            Some(next) => {
                self.next = next;
                let to = match &self.dest {
                    Some(a) => octets::to_vec(a.as_slice()),
                    None => {
                        return None;
                    },
                };
                let packet = build_vehicle_packet(&mut self.seq, time, s);
                Some((to, packet))
            },
        }
    }
}

/// What happens to a stand-in.
pub enum Event {
    /// A datagram from `from`, in which `named` is the address read, if any.
    Command { datagram: Seq<u8>, named: Option<Seq<u8>>, from: Seq<u8> },
    Wake { now: u128, period: u128, time: TlmSecondaryHeader, s: SpacecraftState },
}

impl Event {
    pub open spec fn enables(self) -> bool {
        self matches Event::Command { datagram, named, from } && meaning_of(
            datagram,
        ) is EnableOutput
    }

    /// The destination an enable-output command chooses.
    pub open spec fn choice(self) -> Seq<u8>
        recommends
            self.enables(),
    {
        chosen(self->named, self->from)
    }
}

/// The stand-in after a run of events.
pub open spec fn after_events(m: StandinModel, run: Seq<Event>) -> StandinModel
    decreases run.len(),
{
    if run.len() == 0 {
        m
    } else {
        let before = after_events(m, run.drop_last());
        match run.last() {
            Event::Command { datagram, named, from } => before.heard(
                meaning_of(datagram),
                named,
                from,
            ),
            Event::Wake { now, period, time, s } => before.woken(now, period),
        }
    }
}

/// What the `i`-th event of a run sends, and where to.
pub open spec fn sent_at(run: Seq<Event>, i: int) -> Option<(Seq<u8>, Seq<u8>)> {
    match run[i] {
        Event::Command { .. } => None,
        Event::Wake { now, period, time, s } => after_events(
            StandinModel::started(),
            run.take(i),
        ).sending(now, time, s),
    }
}

/// Event `k` is the latest enable-output before event `i`.
pub open spec fn latest_before(run: Seq<Event>, k: int, i: int) -> bool {
    &&& 0 <= k < i
    &&& run[k].enables()
    &&& forall|j: int| k < j < i ==> !(#[trigger] run[j]).enables()
}

/// The handshake: whatever happens to a stand-in, nothing is sent before the first
/// enable-output command, everything sent goes where the latest one chose, and
/// nothing else moves the destination.
pub proof fn telemetry_is_withheld_until_enabled(run: Seq<Event>, i: int)
    requires
        0 <= i < run.len(),
    ensures
        (forall|j: int| 0 <= j < i ==> !(#[trigger] run[j]).enables()) ==> sent_at(run, i) is None,
        sent_at(run, i) is Some ==> exists|k: int| #[trigger]
            latest_before(run, k, i) && (sent_at(run, i)->0).0 == run[k].choice(),
        ({
            let before = after_events(StandinModel::started(), run.take(i)).dest;
            let after = after_events(StandinModel::started(), run.take(i + 1)).dest;
            after == (if run[i].enables() {
                Some(run[i].choice())
            } else {
                before
            })
        }),
{
    lemma_destination(run, i);
    assert(run.take(i + 1).drop_last() =~= run.take(i));
    assert(run.take(i + 1).last() == run[i]);
}

/// Output goes where the latest enable-output chose, and nowhere without one.
proof fn lemma_destination(run: Seq<Event>, i: int)
    requires
        0 <= i <= run.len(),
    ensures
        ({
            let dest = after_events(StandinModel::started(), run.take(i)).dest;
            &&& dest is None ==> forall|j: int| 0 <= j < i ==> !(#[trigger] run[j]).enables()
            &&& dest is Some ==> exists|k: int| #[trigger]
                latest_before(run, k, i) && dest->0 == run[k].choice()
        }),
    decreases i,
{
    if i > 0 {
        lemma_destination(run, i - 1);
        assert(run.take(i).drop_last() =~= run.take(i - 1));
        assert(run.take(i).last() == run[i - 1]);
        let before = after_events(StandinModel::started(), run.take(i - 1)).dest;
        if run[i - 1].enables() {
            assert(latest_before(run, i - 1, i));
        } else if before is Some {
            let k = choose|k: int| #[trigger]
                latest_before(run, k, i - 1) && before->0 == run[k].choice();
            assert(latest_before(run, k, i));
        }
    }
}

/// A generated packet decodes to the state it was made from, on the flight
/// application's message ID, with the time and the sequence count it was made with.
pub proof fn a_generated_packet_decodes(seq: u16, time: TlmSecondaryHeader, s: SpacecraftState)
    requires
        seq < 0x4000,
    ensures
        packet::is_packet(vehicle_packet(seq, time, s)),
        PrimaryHeader::of_octets(vehicle_packet(seq, time, s)).stream_id_of()
            == crate::msg::rust_app::VEHICLE_TLM_MID,
        state::sample_in(
            vehicle_packet(seq, time, s),
            MsgId(crate::msg::rust_app::VEHICLE_TLM_MID),
        ) == Some(Sample { time: time.time() as i64, seq_count: seq, state: s }),
{
    state::a_state_survives_its_payload(s, Seq::empty());
    assert(s.octets() + Seq::<u8>::empty() =~= s.octets());
    lemma_framing(seq, time, s.octets());
}

/// A payload of the vehicle-state length is found again behind its headers.
proof fn lemma_framing(seq: u16, time: TlmSecondaryHeader, payload: Seq<u8>)
    requires
        seq < 0x4000,
        payload.len() == state::VEHICLE_PAYLOAD_LEN,
    ensures
        ({
            let p = vehicle_header(seq).octets() + time.octets() + seq![0u8, 0u8, 0u8, 0u8]
                + payload;
            &&& packet::is_packet(p)
            &&& PrimaryHeader::of_octets(p) == vehicle_header(seq)
            &&& packet::tlm_secondary_of(p) == Ok::<TlmSecondaryHeader, Error>(time)
            &&& packet::cfe_tlm_payload_of(p) == Ok::<Seq<u8>, Error>(payload)
        }),
{
    let spare = seq![0u8, 0u8, 0u8, 0u8];
    let p = vehicle_header(seq).octets() + time.octets() + spare + payload;
    let tail = time.octets() + spare + payload;
    assert(p =~= vehicle_header(seq).octets() + tail);
    primary::header_survives_the_wire(vehicle_header(seq), tail);
    assert(PrimaryHeader::of_octets(p) == vehicle_header(seq));
    assert(p.skip(6) =~= time.octets() + (spare + payload));
    secondary::timestamp_survives_the_wire(time, spare + payload);
    assert(p.skip(16) =~= payload);
}

/// What an enable-output command names is what the stand-in reads, for any address
/// of at most fifteen octets that does not end in a NUL.
pub proof fn an_enabled_address_is_read_back(seq: u16, address: Seq<u8>)
    requires
        address.len() < to_lab::DEST_IP_LEN,
        address.len() > 0 ==> address.last() != 0,
    ensures
        ({
            let built = to_lab::built_enable_output(
                64,
                MsgIds::defaults().to_lab_cmd,
                seq,
                address,
            );
            &&& built is Ok
            &&& meaning_of(built->Ok_0) == Meaning::EnableOutput(address)
        }),
{
    let id = MsgIds::defaults().to_lab_cmd;
    let field = to_lab::dest_ip_field(address);
    let built = to_lab::built_enable_output(64, id, seq, address);
    let p = crate::msg::command::command_octets(id, to_lab::OUTPUT_ENABLE_CC, seq, field);
    crate::msg::command::a_built_command_parses_back(id, to_lab::OUTPUT_ENABLE_CC, seq, field);
    packet::a_packet_is_self_delimiting(p, Seq::empty());
    assert(p + Seq::<u8>::empty() =~= p);
    lemma_padding(address, 16 - address.len());
    assert(address + Seq::new((16 - address.len()) as nat, |i: int| 0u8) =~= field);
}

proof fn lemma_padding(address: Seq<u8>, n: int)
    requires
        0 <= n,
        address.len() > 0 ==> address.last() != 0,
    ensures
        without_nul_padding(address + Seq::new(n as nat, |i: int| 0u8)) == address,
    decreases n,
{
    let padded = address + Seq::new(n as nat, |i: int| 0u8);
    if n == 0 {
        assert(padded =~= address);
    } else {
        lemma_padding(address, n - 1);
        assert(padded.drop_last() =~= address + Seq::new((n - 1) as nat, |i: int| 0u8));
    }
}

/// A datagram starts with a command packet of message `id`, long enough for a function
/// code and a checksum.
pub open spec fn commands(b: Seq<u8>, id: int) -> bool {
    &&& link::holds_packet(b)
    &&& b[0] * 0x100 + b[1] == id
    &&& b[0] / 16 % 2 == 1
    &&& b[0] / 8 % 2 == 1
    &&& b[4] * 0x100 + b[5] >= 1
}

/// What a datagram means, by its octets: codes 2 to 8 of the flight application's
/// command message fly the vehicle, code 6 of `to_lab`'s enables output, and nothing else
/// means anything. The address is the payload up to its last octet that is not a NUL.
pub proof fn a_datagram_means_what_its_octets_say(b: Seq<u8>)
    ensures
        ({
            let code = b[6] % 0x80;
            let payload = b.subrange(8, b[4] * 0x100 + b[5] + 7);
            &&& meaning_of(b) is Vehicle <==> commands(b, 0x1892) && 2 <= code <= 8
            &&& meaning_of(b) matches Meaning::Vehicle(cmd) ==> flight::command_for(code as u8)
                == Some(cmd)
            &&& meaning_of(b) is EnableOutput <==> commands(b, 0x1880) && code == 6
            &&& meaning_of(b) matches Meaning::EnableOutput(a) ==> {
                &&& a.len() <= payload.len()
                &&& payload.take(a.len() as int) == a
                &&& a.len() > 0 ==> a[a.len() - 1] != 0
                &&& forall|i: int| a.len() <= i < payload.len() ==> #[trigger] payload[i] == 0
            }
        }),
{
    if link::holds_packet(b) {
        let n = b[4] * 0x100 + b[5] + 7;
        let p = b.take(n);
        assert(forall|i: int| 0 <= i < n ==> p[i] == b[i]);
        packet::a_packet_is_as_long_as_it_says(p);
        packet::a_secondary_header_follows_the_primary(p);
        packet::a_payload_starts_where_its_headers_end(p);
        if n >= 8 {
            assert(p.skip(8) =~= b.subrange(8, n));
            lemma_nul_padding(p.skip(8));
        }
    }
}

proof fn lemma_nul_padding(b: Seq<u8>)
    ensures
        ({
            let a = without_nul_padding(b);
            &&& a.len() <= b.len()
            &&& b.take(a.len() as int) == a
            &&& a.len() > 0 ==> a[a.len() - 1] != 0
            &&& forall|i: int| a.len() <= i < b.len() ==> #[trigger] b[i] == 0
        }),
    decreases b.len(),
{
    let a = without_nul_padding(b);
    if b.len() > 0 && b.last() == 0 {
        let head = b.drop_last();
        lemma_nul_padding(head);
        assert(b.take(a.len() as int) =~= head.take(a.len() as int));
        assert forall|i: int| a.len() <= i < b.len() implies #[trigger] b[i] == 0 by {
            if i < head.len() {
                assert(head[i] == 0);
            }
        }
    } else {
        assert(b.take(a.len() as int) =~= b);
    }
}

/// An address with any octet that is not zero is where telemetry goes; without one it
/// goes back to where the command came from.
pub proof fn an_unusable_address_falls_back_to_the_sender(
    named: Option<Seq<u8>>,
    from: Seq<u8>,
    i: int,
)
    ensures
        named is None ==> chosen(named, from) == from,
        named is Some && 0 <= i < (named->0).len() && (named->0)[i] != 0 ==> chosen(named, from)
            == named->0,
        named is Some && (forall|j: int| 0 <= j < (named->0).len() ==> #[trigger] (named->0)[j] == 0)
            ==> chosen(named, from) == from,
{
}

/// Commands move the destination alone, and of them enable-output alone. Waking up moves
/// the schedule, and the sequence count with each packet sent, but never the destination.
pub proof fn commands_and_wake_ups_keep_apart(
    m: StandinModel,
    b: Seq<u8>,
    named: Option<Seq<u8>>,
    from: Seq<u8>,
    now: u128,
    period: u128,
)
    ensures
        ({
            let heard = m.heard(meaning_of(b), named, from);
            let woken = m.woken(now, period);
            &&& heard.seq == m.seq
            &&& heard.next == m.next
            &&& commands(b, 0x1880) && b[6] % 0x80 == 6 ==> heard.dest == Some(chosen(named, from))
            &&& !(commands(b, 0x1880) && b[6] % 0x80 == 6) ==> heard.dest == m.dest
            &&& woken.dest == m.dest
            &&& now < m.next ==> woken == m
            &&& now >= m.next && m.dest is None ==> woken.seq == m.seq
            &&& now >= m.next && m.dest is Some ==> woken.seq == (m.seq + 1) % 0x4000
        }),
{
    a_datagram_means_what_its_octets_say(b);
}

/// A packet goes out exactly when it is due and there is somewhere to send it: there, and
/// with the sequence count of the moment.
pub proof fn a_due_packet_goes_where_output_is_enabled(
    m: StandinModel,
    now: u128,
    time: TlmSecondaryHeader,
    s: SpacecraftState,
)
    ensures
        m.sending(now, time, s) is Some <==> now >= m.next && m.dest is Some,
        m.sending(now, time, s) is Some ==> {
            let (to, p) = m.sending(now, time, s)->0;
            to == m.dest->0 && p == vehicle_packet(m.seq, time, s)
        },
{
}

/// A stand-in starts with output disabled, at sequence count zero, and due at once.
pub proof fn a_standin_starts_disabled()
    ensures
        StandinModel::started().dest is None,
        StandinModel::started().seq == 0,
        StandinModel::started().next == 0,
{
}

/// Before it is due nothing is scheduled anew. Then the schedule moves by one period
/// from when it was due, or from now where that is past already: it never falls behind
/// now, never runs more than a period ahead of it, and stops at the end of the clock.
pub proof fn the_schedule_keeps_its_period(now: u128, next: u128, period: u128)
    ensures
        ({
            let due = rescheduled(now, next, period);
            &&& due is None <==> now < next
            &&& now >= next ==> {
                &&& next + period >= now && next + period <= u128::MAX ==> due->0 == next + period
                &&& next + period < now && now + period <= u128::MAX ==> due->0 == now + period
                &&& now + period > u128::MAX && next + period < now ==> due->0 == u128::MAX
                &&& next + period > u128::MAX ==> due->0 == u128::MAX
                &&& now <= due->0
                &&& due->0 <= now + period
            }
        }),
{
}

/// A vehicle-state packet octet for octet: the flight application's telemetry message,
/// unsegmented, 57 octets in all, the timestamp high octets first, four octets of spare,
/// and the state.
pub proof fn a_vehicle_packet_is_framed_like_telemetry(
    seq: u16,
    time: TlmSecondaryHeader,
    s: SpacecraftState,
)
    ensures
        ({
            let p = vehicle_packet(seq, time, s);
            &&& p.len() == 57
            &&& p[0] * 0x100 + p[1] == 0x0892
            &&& p[2] * 0x100 + p[3] == 0xC000 + seq % 0x4000
            &&& p[4] * 0x100 + p[5] == 50
            &&& ((p[6] * 0x100 + p[7]) * 0x100 + p[8]) * 0x100 + p[9] == time.seconds
            &&& p[10] * 0x100 + p[11] == time.subseconds
            &&& p[12] == 0 && p[13] == 0 && p[14] == 0 && p[15] == 0
            &&& p.skip(16) == s.octets()
        }),
{
    state::a_state_survives_its_payload(s, Seq::empty());
    let p = vehicle_packet(seq, time, s);
    let h = vehicle_header(seq).octets();
    let t = time.octets();
    primary::a_header_is_three_words(vehicle_header(seq));
    assert(t.len() == 6);
    assert(forall|i: int| 0 <= i < 6 ==> p[i] == h[i]);
    assert(forall|i: int| 6 <= i < 12 ==> p[i] == t[i - 6]);
    assert(p.skip(16) =~= s.octets());
    secondary::timestamp_survives_the_wire(time, Seq::empty());
    assert(t + Seq::<u8>::empty() =~= t);
}

/// A stamp is the second that 32 bits hold of it, and the last of the 65536 subseconds
/// of a second that is not ahead of the instant.
pub proof fn a_stamp_is_never_ahead(seconds: u64, nanos: u32)
    requires
        nanos < 1_000_000_000,
    ensures
        ({
            let t = stamped(seconds, nanos);
            &&& (seconds - t.seconds) % 0x1_0000_0000 == 0
            &&& t.subseconds * 1_000_000_000 <= nanos * 0x1_0000
            &&& nanos * 0x1_0000 < (t.subseconds + 1) * 1_000_000_000
        }),
{
}

/// A vehicle command is handed back to be flown, and nothing else is.
pub proof fn only_a_vehicle_command_is_flown(b: Seq<u8>)
    ensures
        commands(b, 0x1892) && 2 <= b[6] % 0x80 <= 8 ==> to_fly(meaning_of(b)) is Some
            && to_fly(meaning_of(b)) == flight::command_for((b[6] % 0x80) as u8),
        !(commands(b, 0x1892) && 2 <= b[6] % 0x80 <= 8) ==> to_fly(meaning_of(b)) is None,
{
    a_datagram_means_what_its_octets_say(b);
}

} // verus!
