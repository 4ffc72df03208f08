//! The ground side of the display: packets in, smooth sampleable state and link
//! health out.
//!
//! One call per frame takes in what the link received, one advances playback. Both
//! are bounded by what arrived, never by the socket.

use vstd::prelude::*;

use crate::ccsds::error::Error;
use crate::ccsds::packet;
use crate::ccsds::packet::SpacePacket;
use crate::ccsds::primary::PrimaryHeader;
use crate::link::{Datagram, LinkStats, RawPacket};
use crate::link;
use crate::model::buffer::{
    BufferConfig, BufferModel, BufferStats, Freshness, JitterBuffer, Shown,
};
use crate::model::laws;
use crate::model::state;
use crate::model::state::decode_vehicle_state;
use crate::msg::command;
use crate::msg::hk;
use crate::msg::hk::{CiLabHk, SampleAppHk, ToLabHk};
use crate::msg::ids::{MsgId, MsgIds};
use crate::msg::rust_app;
use crate::msg::rust_app::RustAppHk;
use crate::msg::sample_app;
use crate::octets;

verus! {

/// Which telemetry messages to decode.
#[derive(Clone, Copy, Debug, PartialEq, Eq, Structural)]
pub struct DecodeConfig {
    /// Which message carries the vehicle-state payload.
    pub tlm_msg_id: MsgId,
    /// Everything else this build publishes that is understood.
    pub msg_ids: MsgIds,
}

/// What to show this frame, and whether to believe it.
#[derive(Clone, Copy, Debug, PartialEq, Eq)]
pub struct Telemetry {
    pub shown: Shown,
    /// Surface this to the operator.
    pub freshness: Freshness,
}

/// Real cFE housekeeping, decoded from the live bus.
///
/// Distinct from [`Telemetry`] on purpose: that is *vehicle* state, which arrives in
/// a mission-specific packet; this is the *flight software's* own state.
///
/// Each field is `None` until the corresponding message has been seen, so a panel
/// can distinguish "zero" from "never heard from".
#[derive(Clone, Copy, Debug, PartialEq, Eq)]
pub struct Housekeeping {
    pub sample_app: Option<SampleAppHk>,
    pub to_lab: Option<ToLabHk>,
    pub ci_lab: Option<CiLabHk>,
    pub rust_app: Option<RustAppHk>,
    /// Timestamp of the most recent housekeeping packet, in ticks.
    pub last_time: Option<i64>,
}

impl Housekeeping {
    pub open spec fn unheard() -> Housekeeping {
        Housekeeping {
            sample_app: None,
            to_lab: None,
            ci_lab: None,
            rust_app: None,
            last_time: None,
        }
    }
}

impl Default for Housekeeping {
    fn default() -> (hk: Self)
        ensures
            hk == Housekeeping::unheard(),
    {
        Housekeeping {
            sample_app: None,
            to_lab: None,
            ci_lab: None,
            rust_app: None,
            last_time: None,
        }
    }
}

/// A command to send to `ci_lab`.
#[derive(Clone, Copy, Debug, PartialEq, Eq, Structural)]
pub enum CfsCommand {
    /// `SAMPLE_APP` no-op. Increments its command counter, which comes back on the
    /// next housekeeping cycle: the cheapest observable round trip.
    SampleAppNoop,
    /// `SAMPLE_APP` reset counters. Drives both counters to zero.
    SampleAppResetCounters,
    /// A `RUST_APP` command, by function code.
    RustApp(u8),
}

/// Link and buffer counters, for a health panel.
#[derive(Clone, Copy, Debug, PartialEq, Eq)]
pub struct LinkHealth {
    pub packets_received: u64,
    pub packets_dropped: u64,
    pub parse_errors: u64,
    pub sequence_gaps: u64,
    /// Packets that parsed but were not a message we decode. Expected: a live
    /// software bus carries plenty of traffic we do not model. Wraps around.
    pub packets_ignored: u64,
    /// Packets whose payload did not decode. Unexpected: a layout mismatch. Wraps
    /// around.
    pub decode_failures: u64,
    /// Commands put on the wire, enable-output keepalives included.
    pub commands_sent: u64,
    pub buffer: BufferStats,
    pub buffered_samples: usize,
    /// Mean telemetry interval in parts of a tick, [`MEAN_PARTS`] to each.
    ///
    /// [`MEAN_PARTS`]: crate::model::buffer::MEAN_PARTS
    pub mean_interval: Option<u128>,
}

impl LinkHealth {
    pub open spec fn zero() -> LinkHealth {
        LinkHealth {
            packets_received: 0,
            packets_dropped: 0,
            parse_errors: 0,
            sequence_gaps: 0,
            packets_ignored: 0,
            decode_failures: 0,
            commands_sent: 0,
            buffer: BufferStats::zero(),
            buffered_samples: 0,
            mean_interval: None,
        }
    }
}

impl Default for LinkHealth {
    fn default() -> (h: Self)
        ensures
            h == LinkHealth::zero(),
    {
        LinkHealth {
            packets_received: 0,
            packets_dropped: 0,
            parse_errors: 0,
            sequence_gaps: 0,
            packets_ignored: 0,
            decode_failures: 0,
            commands_sent: 0,
            buffer: BufferStats::default(),
            buffered_samples: 0,
            mean_interval: None,
        }
    }
}

/// `SAMPLE_APP` housekeeping in a packet.
///
/// A vehicle-state packet may share this message ID and is far longer; length is
/// what tells the two apart without a mode flag.
pub open spec fn sample_app_hk(p: Seq<u8>, ids: MsgIds) -> Option<SampleAppHk> {
    if PrimaryHeader::of_octets(p).stream_id_of() != ids.sample_app_hk_tlm.0 {
        None
    } else {
        match packet::cfe_tlm_payload_of(p) {
            Ok(payload) => if payload.len() == 2 {
                SampleAppHk::decoded(payload)
            } else {
                None
            },
            Err(_) => None,
        }
    }
}

/// `TO_LAB` housekeeping in a packet.
pub open spec fn to_lab_hk(p: Seq<u8>, ids: MsgIds) -> Option<ToLabHk> {
    if PrimaryHeader::of_octets(p).stream_id_of() == ids.to_lab_hk_tlm.0 {
        ToLabHk::in_packet(p)
    } else {
        None
    }
}

/// `CI_LAB` housekeeping in a packet.
pub open spec fn ci_lab_hk(p: Seq<u8>, ids: MsgIds) -> Option<CiLabHk> {
    if PrimaryHeader::of_octets(p).stream_id_of() == ids.ci_lab_hk_tlm.0 {
        CiLabHk::in_packet(p)
    } else {
        None
    }
}

/// `RUST_APP` housekeeping in a packet.
pub open spec fn rust_app_hk(p: Seq<u8>, ids: MsgIds) -> Option<RustAppHk> {
    if PrimaryHeader::of_octets(p).stream_id_of() == ids.rust_app_hk_tlm.0 {
        RustAppHk::in_packet(p)
    } else {
        None
    }
}

/// The packet is housekeeping we understand.
pub open spec fn recognized(p: Seq<u8>, ids: MsgIds) -> bool {
    ||| sample_app_hk(p, ids) is Some
    ||| to_lab_hk(p, ids) is Some
    ||| ci_lab_hk(p, ids) is Some
    ||| rust_app_hk(p, ids) is Some
}

/// `new`, or `old` where there is nothing new.
pub open spec fn newest<T>(new: Option<T>, old: Option<T>) -> Option<T> {
    match new {
        Some(_) => new,
        None => old,
    }
}

/// Housekeeping after one packet.
pub open spec fn hk_after(hk: Housekeeping, p: Seq<u8>, ids: MsgIds) -> Housekeeping {
    Housekeeping {
        sample_app: newest(sample_app_hk(p, ids), hk.sample_app),
        to_lab: newest(to_lab_hk(p, ids), hk.to_lab),
        ci_lab: newest(ci_lab_hk(p, ids), hk.ci_lab),
        rust_app: newest(rust_app_hk(p, ids), hk.rust_app),
        last_time: match packet::tlm_secondary_of(p) {
            Ok(t) if recognized(p, ids) => Some(t.time() as i64),
            _ => hk.last_time,
        },
    }
}

/// What the ground side knows.
#[verifier::ext_equal]
pub struct GroundModel {
    pub config: DecodeConfig,
    pub hk: Housekeeping,
    pub health: LinkHealth,
    pub buffer: BufferModel,
    pub telemetry: Telemetry,
}

impl GroundModel {
    pub open spec fn started(config: DecodeConfig, buffer: BufferConfig) -> GroundModel {
        GroundModel {
            config,
            hk: Housekeeping::unheard(),
            health: LinkHealth::zero(),
            buffer: BufferModel::empty(buffer),
            telemetry: Telemetry { shown: Shown::Nothing, freshness: Freshness::NoData },
        }
    }

    /// After one packet: housekeeping first and unconditionally, then the vehicle
    /// state, then whatever is left over is counted as a failure to decode or as
    /// traffic to ignore.
    pub open spec fn ingested(self, p: Seq<u8>) -> GroundModel {
        let ids = self.config.msg_ids;
        let m = GroundModel { hk: hk_after(self.hk, p, ids), ..self };
        match state::sample_in(p, self.config.tlm_msg_id) {
            Some(sample) => GroundModel { buffer: self.buffer.inserted(sample), ..m },
            None => if recognized(p, ids) {
                m
            } else if PrimaryHeader::of_octets(p).stream_id_of() == self.config.tlm_msg_id.0 {
                GroundModel {
                    health: LinkHealth {
                        decode_failures: self.health.decode_failures.wrapping_add(1),
                        ..self.health
                    },
                    ..m
                }
            } else {
                GroundModel {
                    health: LinkHealth {
                        packets_ignored: self.health.packets_ignored.wrapping_add(1),
                        ..self.health
                    },
                    ..m
                }
            },
        }
    }

    /// After a batch of datagrams. One that holds no packet changes nothing: the
    /// link has counted it already.
    pub open spec fn ingested_all(self, batch: Seq<Datagram>) -> GroundModel
        decreases batch.len(),
    {
        if batch.len() == 0 {
            self
        } else {
            let m = self.ingested_all(batch.drop_last());
            match packet::front_packet(batch.last().octets) {
                Ok(p) => m.ingested(p),
                Err(_) => m,
            }
        }
    }

    /// With the link's own counters copied in.
    pub open spec fn with_link_stats(self, stats: LinkStats) -> GroundModel {
        GroundModel {
            health: LinkHealth {
                packets_received: stats.packets_received,
                packets_dropped: stats.packets_dropped,
                parse_errors: stats.parse_errors,
                sequence_gaps: stats.sequence_gaps,
                commands_sent: stats.commands_sent,
                ..self.health
            },
            ..self
        }
    }

    /// After playback advanced by `dt`.
    pub open spec fn advanced(self, dt: i64) -> GroundModel {
        let b = self.buffer.advanced(dt);
        GroundModel {
            buffer: b,
            telemetry: Telemetry { shown: b.shown().0, freshness: b.shown().1 },
            health: LinkHealth {
                buffer: b.stats,
                buffered_samples: b.samples.len() as usize,
                mean_interval: match b.mean_interval {
                    Some(i) if i > 0 => Some(i),
                    _ => None,
                },
                ..self.health
            },
            ..self
        }
    }
}

/// The ground side.
pub struct Ground {
    config: DecodeConfig,
    hk: Housekeeping,
    health: LinkHealth,
    buffer: JitterBuffer,
    telemetry: Telemetry,
}

impl View for Ground {
    type V = GroundModel;

    closed spec fn view(&self) -> GroundModel {
        GroundModel {
            config: self.config,
            hk: self.hk,
            health: self.health,
            buffer: self.buffer@,
            telemetry: self.telemetry,
        }
    }
}

impl Ground {
    pub open spec fn wf(&self) -> bool {
        self@.buffer.wf()
    }

    /// Before any telemetry arrives it shows nothing, and says so.
    pub fn new(config: DecodeConfig, buffer: BufferConfig) -> (g: Self)
        ensures
            g.wf(),
            g@ == GroundModel::started(config, buffer),
    {
        let g = Ground {
            config,
            hk: Housekeeping::default(),
            health: LinkHealth::default(),
            buffer: JitterBuffer::new(buffer),
            telemetry: Telemetry { shown: Shown::Nothing, freshness: Freshness::NoData },
        };
        assert(g@ =~= GroundModel::started(config, buffer));
        g
    }

    pub fn housekeeping(&self) -> (hk: Housekeeping)
        ensures
            hk == self@.hk,
    {
        self.hk
    }

    pub fn health(&self) -> (h: LinkHealth)
        ensures
            h == self@.health,
    {
        self.health
    }

    pub fn telemetry(&self) -> (t: Telemetry)
        ensures
            t == self@.telemetry,
    {
        self.telemetry
    }

    /// Take in one packet.
    pub fn ingest_packet(&mut self, pkt: &SpacePacket<'_>)
        requires
            old(self).wf(),
        ensures
            final(self).wf(),
            final(self)@ == old(self)@.ingested(pkt@),
    {
        let ghost start = self@;
        let ids = self.config.msg_ids;
        let stream: u16 = pkt.primary().stream_id();
        let mut known: bool = false;
        if stream == ids.sample_app_hk_tlm.0 {
            if let Ok(payload) = pkt.cfe_tlm_payload() {
                if payload.len() == SampleAppHk::LEN {
                    self.hk.sample_app = SampleAppHk::decode(payload);
                    known = true;
                }
            }
        }
        if stream == ids.to_lab_hk_tlm.0 {
            if let Some(v) = ToLabHk::from_packet(pkt) {
                self.hk.to_lab = Some(v);
                known = true;
            }
        }
        if stream == ids.ci_lab_hk_tlm.0 {
            if let Some(v) = CiLabHk::from_packet(pkt) {
                self.hk.ci_lab = Some(v);
                known = true;
            }
        }
        if stream == ids.rust_app_hk_tlm.0 {
            if let Some(v) = RustAppHk::from_packet(pkt) {
                self.hk.rust_app = Some(v);
                known = true;
            }
        }
        if known {
            if let Ok(t) = pkt.tlm_secondary() {
                self.hk.last_time = Some(t.ticks());
            }
        }
        assert(known == recognized(pkt@, ids));
        assert(self.hk == hk_after(start.hk, pkt@, ids));
        match decode_vehicle_state(pkt, self.config.tlm_msg_id) {
            Some(sample) => {
                self.buffer.insert(sample);
            },
            None => {
                if !known {
                    if stream == self.config.tlm_msg_id.0 {
                        // Right message, unreadable payload: a real layout mismatch.
                        self.health.decode_failures = self.health.decode_failures.wrapping_add(1);
                    } else {
                        self.health.packets_ignored = self.health.packets_ignored.wrapping_add(1);
                    }
                }
            },
        }
        assert(self@ =~= start.ingested(pkt@));
    }

    /// Take in what the link received, and its counters.
    pub fn ingest_packets(&mut self, batch: &Vec<RawPacket>, stats: &LinkStats)
        requires
            old(self).wf(),
        ensures
            final(self).wf(),
            final(self)@ == old(self)@.ingested_all(link::datagrams(batch@)).with_link_stats(*stats),
    {
        let ghost start = self@;
        let ghost all = link::datagrams(batch@);
        let n: usize = batch.len();
        let mut i: usize = 0;
        assert(all.take(0) =~= Seq::<Datagram>::empty());
        while i < n
            invariant
                n == batch@.len(),
                all == link::datagrams(batch@),
                i <= n,
                self.wf(),
                self@ == start.ingested_all(all.take(i as int)),
            decreases n - i,
        {
            assert(all.take(i + 1).drop_last() =~= all.take(i as int));
            assert(all.take(i + 1).last() == batch@[i as int]@);
            if let Ok(pkt) = batch[i].parse() {
                self.ingest_packet(&pkt);
            }
            i = i + 1;
        }
        assert(all.take(n as int) =~= all);
        self.health.packets_received = stats.packets_received;
        self.health.packets_dropped = stats.packets_dropped;
        self.health.parse_errors = stats.parse_errors;
        self.health.sequence_gaps = stats.sequence_gaps;
        self.health.commands_sent = stats.commands_sent;
        assert(self@ =~= start.ingested_all(all).with_link_stats(*stats));
    }

    /// Advance the playback clock by `dt` ticks and publish what to show.
    pub fn advance_playback(&mut self, dt: i64)
        requires
            old(self).wf(),
        ensures
            final(self).wf(),
            final(self)@ == old(self)@.advanced(dt),
    {
        let ghost start = self@;
        self.buffer.advance(dt);
        let (shown, freshness) = self.buffer.playback();
        self.telemetry = Telemetry { shown, freshness };
        self.health.buffer = self.buffer.stats();
        self.health.buffered_samples = self.buffer.len();
        self.health.mean_interval = self.buffer.mean_interval();
        assert(self@ =~= start.advanced(dt));
    }
}

/// The packet that carries a command.
pub open spec fn command_packet(cmd: CfsCommand, ids: MsgIds, seq: u16) -> Seq<u8> {
    match cmd {
        CfsCommand::SampleAppNoop => command::command_octets(
            ids.sample_app_cmd,
            sample_app::NOOP_CC,
            seq,
            Seq::empty(),
        ),
        CfsCommand::SampleAppResetCounters => command::command_octets(
            ids.sample_app_cmd,
            sample_app::RESET_COUNTERS_CC,
            seq,
            Seq::empty(),
        ),
        CfsCommand::RustApp(fc) => command::command_octets(ids.rust_app_cmd, fc, seq, Seq::empty()),
    }
}

/// Build the packet that carries a command.
pub fn build_packet(cmd: CfsCommand, ids: &MsgIds, seq: u16) -> (out: Vec<u8>)
    ensures
        out@ == command_packet(cmd, *ids, seq),
{
    let mut buf: [u8; 64] = [0u8;64];
    let built = match cmd {
        CfsCommand::SampleAppNoop => sample_app::noop(&mut buf, ids.sample_app_cmd, seq),
        CfsCommand::SampleAppResetCounters => sample_app::reset_counters(
            &mut buf,
            ids.sample_app_cmd,
            seq,
        ),
        CfsCommand::RustApp(fc) => rust_app::command(&mut buf, ids.rust_app_cmd, fc, seq),
    };
    match built {
        Ok(p) => octets::to_vec(p),
        Err(_) => {
            assert(false);
            Vec::new()
        },
    }
}

/// Every packet is accounted for in exactly one way: a vehicle sample for the
/// buffer, housekeeping, a failure to decode, or ignored traffic; and only the
/// counter of that way moves.
pub proof fn every_packet_is_accounted_for(m: GroundModel, p: Seq<u8>)
    ensures
        ({
            let after = m.ingested(p);
            let ids = m.config.msg_ids;
            let sample = state::sample_in(p, m.config.tlm_msg_id);
            let mine = PrimaryHeader::of_octets(p).stream_id_of() == m.config.tlm_msg_id.0;
            &&& sample is Some ==> after.buffer == m.buffer.inserted(sample->0) && after.health
                == m.health
            &&& sample is None ==> after.buffer == m.buffer
            &&& sample is None && recognized(p, ids) ==> after.health == m.health
            &&& sample is None && !recognized(p, ids) && mine ==> after.health == (LinkHealth {
                decode_failures: m.health.decode_failures.wrapping_add(1),
                ..m.health
            })
            &&& sample is None && !recognized(p, ids) && !mine ==> after.health == (LinkHealth {
                packets_ignored: m.health.packets_ignored.wrapping_add(1),
                ..m.health
            })
        }),
{
}

/// No packet of message `id` is among these datagrams.
pub open spec fn without(batch: Seq<Datagram>, id: MsgId) -> bool {
    forall|i: int| #![trigger batch[i]]
        0 <= i < batch.len() && packet::front_packet(batch[i].octets) is Ok
            ==> PrimaryHeader::of_octets(
            packet::front_packet(batch[i].octets)->Ok_0,
        ).stream_id_of() != id.0
}

/// A message never heard stays unheard: whatever else is on the bus, an
/// application's housekeeping comes from its own message alone.
pub proof fn housekeeping_comes_from_its_own_message(m: GroundModel, batch: Seq<Datagram>)
    ensures
        ({
            let ids = m.config.msg_ids;
            let after = m.ingested_all(batch);
            &&& after.config == m.config
            &&& without(batch, ids.sample_app_hk_tlm) ==> after.hk.sample_app == m.hk.sample_app
            &&& without(batch, ids.to_lab_hk_tlm) ==> after.hk.to_lab == m.hk.to_lab
            &&& without(batch, ids.ci_lab_hk_tlm) ==> after.hk.ci_lab == m.hk.ci_lab
            &&& without(batch, ids.rust_app_hk_tlm) ==> after.hk.rust_app == m.hk.rust_app
        }),
    decreases batch.len(),
{
    if batch.len() > 0 {
        let head = batch.drop_last();
        assert forall|id: MsgId| without(batch, id) implies #[trigger] without(head, id) by {
            assert forall|i: int| #![trigger head[i]]
                0 <= i < head.len() && packet::front_packet(
                    head[i].octets,
                ) is Ok implies PrimaryHeader::of_octets(
                packet::front_packet(head[i].octets)->Ok_0,
            ).stream_id_of() != id.0 by {
                assert(head[i] == batch[i]);
            }
        }
        housekeeping_comes_from_its_own_message(m, head);
        assert(batch.last() == batch[batch.len() - 1]);
    }
}

/// A datagram starts with a telemetry packet of message `id` that carries a timestamp
/// and is `from` to `to` octets long.
pub open spec fn carries(b: Seq<u8>, id: MsgId, from: int, to: int) -> bool {
    &&& link::holds_packet(b)
    &&& b[0] * 0x100 + b[1] == id.0
    &&& b[0] / 16 % 2 == 0
    &&& b[0] / 8 % 2 == 1
    &&& from <= b[4] * 0x100 + b[5] + 7 <= to
}

/// A report of `SAMPLE_APP`: two octets of payload, no more.
pub open spec fn from_sample_app(ids: MsgIds, b: Seq<u8>) -> bool {
    carries(b, ids.sample_app_hk_tlm, 18, 18)
}

/// A report of `TO_LAB`: two octets of payload or more.
pub open spec fn from_to_lab(ids: MsgIds, b: Seq<u8>) -> bool {
    carries(b, ids.to_lab_hk_tlm, 18, 65542)
}

/// A report of `CI_LAB`: twelve octets of payload or more.
pub open spec fn from_ci_lab(ids: MsgIds, b: Seq<u8>) -> bool {
    carries(b, ids.ci_lab_hk_tlm, 28, 65542)
}

/// A report of `RUST_APP`: twelve octets of payload or more.
pub open spec fn from_rust_app(ids: MsgIds, b: Seq<u8>) -> bool {
    carries(b, ids.rust_app_hk_tlm, 28, 65542)
}

/// The 32-bit word at `at`, low octet first.
pub open spec fn word_at(b: Seq<u8>, at: int) -> int {
    b[at] + 0x100 * (b[at + 1] + 0x100 * (b[at + 2] + 0x100 * b[at + 3]))
}

pub open spec fn sample_app_report(b: Seq<u8>) -> Option<SampleAppHk> {
    Some(SampleAppHk { command_counter: b[16], command_error_counter: b[17] })
}

pub open spec fn to_lab_report(b: Seq<u8>) -> Option<ToLabHk> {
    Some(ToLabHk { command_counter: b[16], command_error_counter: b[17] })
}

pub open spec fn ci_lab_report(b: Seq<u8>) -> Option<CiLabHk> {
    Some(
        CiLabHk {
            command_counter: b[16],
            command_error_counter: b[17],
            enable_checksums: b[18],
            socket_connected: b[19],
            ingest_packets: word_at(b, 20) as u32,
            ingest_errors: word_at(b, 24) as u32,
        },
    )
}

pub open spec fn rust_app_report(b: Seq<u8>) -> Option<RustAppHk> {
    Some(
        RustAppHk {
            command_counter: b[16],
            command_error_counter: b[17],
            mode: b[18],
            wheels_saturated: b[19],
            control_cycles: word_at(b, 20) as u32,
            targets_commanded: word_at(b, 24) as u32,
        },
    )
}

/// A report replaces what its application reported before, whatever that was, and is
/// the time of the latest one; an application that this packet does not report for
/// keeps its own.
pub proof fn a_report_replaces_the_one_before(hk: Housekeeping, ids: MsgIds, p: Seq<u8>)
    requires
        packet::is_packet(p),
    ensures
        ({
            let after = hk_after(hk, p, ids);
            let s = from_sample_app(ids, p);
            let t = from_to_lab(ids, p);
            let c = from_ci_lab(ids, p);
            let r = from_rust_app(ids, p);
            let seconds = ((p[6] * 0x100 + p[7]) * 0x100 + p[8]) * 0x100 + p[9];
            let subseconds = p[10] * 0x100 + p[11];
            &&& after.sample_app == (if s {
                sample_app_report(p)
            } else {
                hk.sample_app
            })
            &&& after.to_lab == (if t {
                to_lab_report(p)
            } else {
                hk.to_lab
            })
            &&& after.ci_lab == (if c {
                ci_lab_report(p)
            } else {
                hk.ci_lab
            })
            &&& after.rust_app == (if r {
                rust_app_report(p)
            } else {
                hk.rust_app
            })
            &&& s || t || c || r ==> after.last_time is Some && after.last_time->0 == seconds
                * 1_024_000_000 + subseconds * 15_625
            &&& !(s || t || c || r) ==> after.last_time == hk.last_time
        }),
{
    lemma_reports(ids, p);
    packet::a_secondary_header_follows_the_primary(p);
}

proof fn lemma_reports(ids: MsgIds, p: Seq<u8>)
    requires
        packet::is_packet(p),
    ensures
        sample_app_hk(p, ids) == (if from_sample_app(ids, p) {
            sample_app_report(p)
        } else {
            None
        }),
        to_lab_hk(p, ids) == (if from_to_lab(ids, p) {
            to_lab_report(p)
        } else {
            None
        }),
        ci_lab_hk(p, ids) == (if from_ci_lab(ids, p) {
            ci_lab_report(p)
        } else {
            None
        }),
        rust_app_hk(p, ids) == (if from_rust_app(ids, p) {
            rust_app_report(p)
        } else {
            None
        }),
{
    packet::a_packet_is_as_long_as_it_says(p);
    packet::a_payload_starts_where_its_headers_end(p);
    hk::housekeeping_is_read_from_octet_16(p);
    rust_app::housekeeping_is_read_from_octet_16(p);
}

/// `i` is where the last datagram of `batch` that `pick` accepts is, or -1 where it
/// accepts none.
pub open spec fn last_of(batch: Seq<Datagram>, pick: spec_fn(Seq<u8>) -> bool, i: int) -> bool {
    &&& -1 <= i < batch.len()
    &&& i >= 0 ==> pick(batch[i].octets)
    &&& forall|j: int| i < j < batch.len() ==> !pick((#[trigger] batch[j]).octets)
}

/// After a batch each application's housekeeping is its last report in it, at `s`, `t`,
/// `c` and `r`, and what it was where the batch holds none.
pub proof fn the_last_report_of_a_batch_is_kept(
    m: GroundModel,
    batch: Seq<Datagram>,
    s: int,
    t: int,
    c: int,
    r: int,
)
    requires
        last_of(batch, |b: Seq<u8>| from_sample_app(m.config.msg_ids, b), s),
        last_of(batch, |b: Seq<u8>| from_to_lab(m.config.msg_ids, b), t),
        last_of(batch, |b: Seq<u8>| from_ci_lab(m.config.msg_ids, b), c),
        last_of(batch, |b: Seq<u8>| from_rust_app(m.config.msg_ids, b), r),
    ensures
        ({
            let after = m.ingested_all(batch);
            &&& after.config == m.config
            &&& after.hk.sample_app == (if s >= 0 {
                sample_app_report(batch[s].octets)
            } else {
                m.hk.sample_app
            })
            &&& after.hk.to_lab == (if t >= 0 {
                to_lab_report(batch[t].octets)
            } else {
                m.hk.to_lab
            })
            &&& after.hk.ci_lab == (if c >= 0 {
                ci_lab_report(batch[c].octets)
            } else {
                m.hk.ci_lab
            })
            &&& after.hk.rust_app == (if r >= 0 {
                rust_app_report(batch[r].octets)
            } else {
                m.hk.rust_app
            })
        }),
    decreases batch.len(),
{
    if batch.len() > 0 {
        let ids = m.config.msg_ids;
        let head = batch.drop_last();
        let n = head.len() as int;
        let s0 = lemma_last_of_head(batch, |b: Seq<u8>| from_sample_app(ids, b), s);
        let t0 = lemma_last_of_head(batch, |b: Seq<u8>| from_to_lab(ids, b), t);
        let c0 = lemma_last_of_head(batch, |b: Seq<u8>| from_ci_lab(ids, b), c);
        let r0 = lemma_last_of_head(batch, |b: Seq<u8>| from_rust_app(ids, b), r);
        the_last_report_of_a_batch_is_kept(m, head, s0, t0, c0, r0);
        lemma_front(ids, batch[n].octets);
        if packet::front_packet(batch[n].octets) is Ok {
            let p = packet::front_packet(batch[n].octets)->Ok_0;
            a_report_replaces_the_one_before(m.ingested_all(head).hk, ids, p);
        }
    }
}

/// Where the last pick before the end of a batch is.
proof fn lemma_last_of_head(
    batch: Seq<Datagram>,
    pick: spec_fn(Seq<u8>) -> bool,
    i: int,
) -> (k: int)
    requires
        batch.len() > 0,
        last_of(batch, pick, i),
    ensures
        last_of(batch.drop_last(), pick, k),
        i < batch.len() - 1 ==> k == i,
        i == batch.len() - 1 <==> pick(batch[batch.len() - 1].octets),
{
    let head = batch.drop_last();
    if i < head.len() {
        assert forall|j: int| i < j < head.len() implies !pick((#[trigger] head[j]).octets) by {
            assert(head[j] == batch[j]);
        }
        i
    } else {
        lemma_some_last(head, pick)
    }
}

proof fn lemma_some_last(batch: Seq<Datagram>, pick: spec_fn(Seq<u8>) -> bool) -> (k: int)
    ensures
        last_of(batch, pick, k),
    decreases batch.len(),
{
    if batch.len() == 0 {
        -1
    } else if pick(batch.last().octets) {
        batch.len() - 1
    } else {
        let head = batch.drop_last();
        let k = lemma_some_last(head, pick);
        assert forall|j: int| k < j < batch.len() implies !pick((#[trigger] batch[j]).octets) by {
            if j < head.len() {
                assert(head[j] == batch[j]);
            }
        }
        k
    }
}

/// The packet at the front of a datagram reports what the datagram does.
proof fn lemma_front(ids: MsgIds, b: Seq<u8>)
    ensures
        packet::front_packet(b) is Ok <==> link::holds_packet(b),
        packet::front_packet(b) is Ok ==> {
            let p = packet::front_packet(b)->Ok_0;
            &&& packet::is_packet(p)
            &&& from_sample_app(ids, p) == from_sample_app(ids, b)
            &&& from_to_lab(ids, p) == from_to_lab(ids, b)
            &&& from_ci_lab(ids, p) == from_ci_lab(ids, b)
            &&& from_rust_app(ids, p) == from_rust_app(ids, b)
            &&& from_sample_app(ids, b) ==> sample_app_report(p) == sample_app_report(b)
            &&& from_to_lab(ids, b) ==> to_lab_report(p) == to_lab_report(b)
            &&& from_ci_lab(ids, b) ==> ci_lab_report(p) == ci_lab_report(b)
            &&& from_rust_app(ids, b) ==> rust_app_report(p) == rust_app_report(b)
        },
{
    if link::holds_packet(b) {
        let n = b[4] * 0x100 + b[5] + 7;
        let p = b.take(n);
        assert(forall|i: int| 0 <= i < n ==> p[i] == b[i]);
        assert(packet::front_packet(b) == Ok::<Seq<u8>, Error>(p));
        packet::a_packet_is_as_long_as_it_says(p);
    }
}

/// What one packet does, by its octets. A vehicle sample goes into the buffer. A packet
/// that is neither a sample nor a report is a failure to decode where it is the message
/// that carries samples, and otherwise ignored.
pub proof fn each_packet_is_a_sample_a_report_or_counted(m: GroundModel, p: Seq<u8>)
    requires
        packet::is_packet(p),
    ensures
        ({
            let after = m.ingested(p);
            let ids = m.config.msg_ids;
            let sample = state::sample_in(p, m.config.tlm_msg_id);
            let report = from_sample_app(ids, p) || from_to_lab(ids, p) || from_ci_lab(ids, p)
                || from_rust_app(ids, p);
            let mine = p[0] * 0x100 + p[1] == m.config.tlm_msg_id.0;
            let was = m.health;
            let is = after.health;
            &&& after.config == m.config
            &&& after.telemetry == m.telemetry
            &&& after.buffer == (match sample {
                Some(x) => m.buffer.inserted(x),
                None => m.buffer,
            })
            &&& is.decode_failures == (if sample is None && !report && mine {
                was.decode_failures.wrapping_add(1)
            } else {
                was.decode_failures
            })
            &&& is.packets_ignored == (if sample is None && !report && !mine {
                was.packets_ignored.wrapping_add(1)
            } else {
                was.packets_ignored
            })
            &&& is.packets_received == was.packets_received
            &&& is.packets_dropped == was.packets_dropped
            &&& is.parse_errors == was.parse_errors
            &&& is.sequence_gaps == was.sequence_gaps
            &&& is.commands_sent == was.commands_sent
            &&& is.buffer == was.buffer
            &&& is.buffered_samples == was.buffered_samples
            &&& is.mean_interval == was.mean_interval
        }),
{
    lemma_reports(m.config.msg_ids, p);
}

/// A batch is taken in one datagram after the other, and one that holds no packet
/// changes nothing.
pub proof fn a_batch_is_taken_in_one_by_one(m: GroundModel, batch: Seq<Datagram>, d: Datagram)
    ensures
        m.ingested_all(Seq::empty()) == m,
        !link::holds_packet(d.octets) ==> m.ingested_all(batch.push(d)) == m.ingested_all(batch),
        link::holds_packet(d.octets) ==> m.ingested_all(batch.push(d)) == m.ingested_all(
            batch,
        ).ingested(d.octets.take(d.octets[4] * 0x100 + d.octets[5] + 7)),
{
    assert(batch.push(d).drop_last() =~= batch);
    lemma_front(m.config.msg_ids, d.octets);
}

/// The link's counters show as they are, each in its own place, and touch nothing else.
pub proof fn the_links_counters_show_as_they_are(m: GroundModel, stats: LinkStats)
    ensures
        ({
            let after = m.with_link_stats(stats);
            &&& after.health.packets_received == stats.packets_received
            &&& after.health.packets_dropped == stats.packets_dropped
            &&& after.health.parse_errors == stats.parse_errors
            &&& after.health.sequence_gaps == stats.sequence_gaps
            &&& after.health.commands_sent == stats.commands_sent
            &&& after.health.packets_ignored == m.health.packets_ignored
            &&& after.health.decode_failures == m.health.decode_failures
            &&& after.health.buffer == m.health.buffer
            &&& after.health.buffered_samples == m.health.buffered_samples
            &&& after.health.mean_interval == m.health.mean_interval
            &&& after.config == m.config
            &&& after.hk == m.hk
            &&& after.buffer == m.buffer
            &&& after.telemetry == m.telemetry
        }),
{
}

/// What is published each frame is what the buffer shows once the frame's time has
/// passed, with its counters; a mean of zero is no mean. The link's counters and the
/// housekeeping stay.
pub proof fn each_frame_publishes_the_buffer(m: GroundModel, dt: i64)
    requires
        m.buffer.wf(),
    ensures
        ({
            let after = m.advanced(dt);
            &&& after.buffer == m.buffer.advanced(dt)
            &&& after.telemetry.shown == after.buffer.shown().0
            &&& after.telemetry.freshness == after.buffer.shown().1
            &&& after.health.buffer == m.buffer.stats
            &&& after.health.buffered_samples == after.buffer.samples.len()
            &&& after.health.mean_interval == (if m.buffer.mean_interval == Some(0u128) {
                None
            } else {
                m.buffer.mean_interval
            })
            &&& after.health.packets_received == m.health.packets_received
            &&& after.health.packets_dropped == m.health.packets_dropped
            &&& after.health.parse_errors == m.health.parse_errors
            &&& after.health.sequence_gaps == m.health.sequence_gaps
            &&& after.health.commands_sent == m.health.commands_sent
            &&& after.health.packets_ignored == m.health.packets_ignored
            &&& after.health.decode_failures == m.health.decode_failures
            &&& after.config == m.config
            &&& after.hk == m.hk
        }),
{
    laws::time_moves_playback_and_nothing_else(m.buffer, dt);
}

/// Before anything arrives nothing has been heard, counted or shown.
pub proof fn the_ground_starts_with_nothing(config: DecodeConfig, buffer: BufferConfig)
    ensures
        ({
            let m = GroundModel::started(config, buffer);
            &&& m.config == config
            &&& m.buffer.config == buffer
            &&& m.buffer.samples.len() == 0
            &&& m.buffer.playback is None
            &&& m.hk.sample_app is None
            &&& m.hk.to_lab is None
            &&& m.hk.ci_lab is None
            &&& m.hk.rust_app is None
            &&& m.hk.last_time is None
            &&& m.health.packets_received == 0
            &&& m.health.packets_dropped == 0
            &&& m.health.parse_errors == 0
            &&& m.health.sequence_gaps == 0
            &&& m.health.packets_ignored == 0
            &&& m.health.decode_failures == 0
            &&& m.health.commands_sent == 0
            &&& m.health.buffered_samples == 0
            &&& m.health.mean_interval is None
            &&& m.telemetry.shown is Nothing
            &&& m.telemetry.freshness is NoData
        }),
{
}

/// A command is addressed to its own application, with its own function code and no
/// payload: a no-op is 0, a reset is 1, and any other is the code that was asked for.
pub proof fn a_command_goes_to_its_application(cmd: CfsCommand, ids: MsgIds, seq: u16)
    ensures
        ({
            let p = command_packet(cmd, ids, seq);
            &&& p.len() == 8
            &&& p[2] * 0x100 + p[3] == 0xC000 + seq % 0x4000
            &&& p[4] == 0 && p[5] == 1
            &&& cmd is RustApp ==> p[0] * 0x100 + p[1] == 0x1800 + ids.rust_app_cmd.0 % 0x800
                && p[6] == cmd->RustApp_0 % 0x80
            &&& !(cmd is RustApp) ==> p[0] * 0x100 + p[1] == 0x1800 + ids.sample_app_cmd.0 % 0x800
            &&& cmd is SampleAppNoop ==> p[6] == 0
            &&& cmd is SampleAppResetCounters ==> p[6] == 1
        }),
{
    let (id, code) = match cmd {
        CfsCommand::SampleAppNoop => (ids.sample_app_cmd, 0u8),
        CfsCommand::SampleAppResetCounters => (ids.sample_app_cmd, 1u8),
        CfsCommand::RustApp(fc) => (ids.rust_app_cmd, fc),
    };
    command::a_command_is_laid_out_octet_for_octet(id, code, seq, Seq::empty());
}

} // verus!
