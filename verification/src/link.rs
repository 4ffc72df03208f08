//! The bookkeeping of a UDP link to a running cFS: commands go in through `ci_lab`,
//! telemetry comes out of `to_lab`.
//!
//! The consumer has a fixed frame budget and must never wait for the socket. A
//! receiver feeds a bounded queue; if the consumer stalls, the queue fills and the
//! *oldest* packets are dropped. Losing stale telemetry is the correct failure mode
//! for a live display.

use std::collections::{HashMap, VecDeque};
use vstd::prelude::*;

use crate::ccsds::error::Error;
use crate::ccsds::packet;
use crate::ccsds::packet::SpacePacket;
use crate::ccsds::primary::PrimaryHeader;
use crate::msg::command;
use crate::msg::ids::{MsgId, MsgIds};
use crate::msg::to_lab;
use crate::octets;

verus! {

/// Default `ci_lab` command port.
pub const DEFAULT_CMD_PORT: u16 = 1234;

/// Default `to_lab` telemetry port.
///
/// 2234, not the 1235 that older cFS documentation and ground tools use.
pub const DEFAULT_TLM_PORT: u16 = 2234;

/// Largest datagram accepted: generous enough to catch oversize packets as an
/// error rather than truncating them silently.
pub const MAX_DATAGRAM: usize = 16384;

/// Packets buffered before the oldest are dropped.
pub const DEFAULT_QUEUE_DEPTH: usize = 256;

/// Seconds between re-sends of the enable-output command.
///
/// `to_lab` forgets its destination *and* its runtime subscriptions when cFS
/// restarts, so a display that sent them once would go quiet forever after a
/// restart it never noticed.
pub const ENABLE_INTERVAL_S: u64 = 5;

/// How long the runtime-subscribed streams may be silent, in nanoseconds, before
/// the subscriptions are sent again.
///
/// Not unconditionally on every keepalive: `to_lab` answers an add-packet for a
/// stream it already carries by incrementing its *command error counter*, which is
/// exactly the indicator an operator uses to notice real problems. Silence is the
/// signal that actually means the subscription is gone. Four seconds is several
/// times the publish rate, so a healthy link never trips it.
pub const SUBSCRIPTION_SILENCE_NS: u128 = 4_000_000_000;

/// Nanoseconds in a millisecond.
pub const NANOS_PER_MS: u128 = 1_000_000;

/// Counters for a link-health indicator. Each wraps around.
#[derive(Clone, Copy, Debug, PartialEq, Eq, Structural)]
pub struct LinkStats {
    pub packets_received: u64,
    /// Milliseconds since the link started at the last packet on a
    /// runtime-subscribed stream. Zero until one arrives.
    pub last_subscribed_ms: u64,
    pub bytes_received: u64,
    pub packets_dropped: u64,
    pub parse_errors: u64,
    pub sequence_gaps: u64,
    pub commands_sent: u64,
    /// Milliseconds since the link started at the last packet. Zero until one
    /// arrives.
    pub last_packet_ms: u64,
}

impl LinkStats {
    pub open spec fn zero() -> LinkStats {
        LinkStats {
            packets_received: 0,
            last_subscribed_ms: 0,
            bytes_received: 0,
            packets_dropped: 0,
            parse_errors: 0,
            sequence_gaps: 0,
            commands_sent: 0,
            last_packet_ms: 0,
        }
    }

    /// Nanoseconds since the last packet, `elapsed_ns` after the link started, or
    /// `None` if none has arrived.
    pub fn staleness(&self, elapsed_ns: u128) -> (age: Option<u128>)
        ensures
            age == (if self.last_packet_ms == 0 {
                None
            } else {
                Some(time_since(elapsed_ns, self.last_packet_ms) as u128)
            }),
            age == age_of(*self, elapsed_ns),
    {
        if self.last_packet_ms == 0 {
            None
        } else {
            Some(since(elapsed_ns, self.last_packet_ms))
        }
    }
}

impl Default for LinkStats {
    fn default() -> (s: Self)
        ensures
            s == LinkStats::zero(),
    {
        LinkStats {
            packets_received: 0,
            last_subscribed_ms: 0,
            bytes_received: 0,
            packets_dropped: 0,
            parse_errors: 0,
            sequence_gaps: 0,
            commands_sent: 0,
            last_packet_ms: 0,
        }
    }
}

/// How long ago the last packet arrived, if one has.
pub open spec fn age_of(stats: LinkStats, elapsed_ns: u128) -> Option<u128> {
    if stats.last_packet_ms == 0 {
        None
    } else {
        Some(time_since(elapsed_ns, stats.last_packet_ms) as u128)
    }
}

/// Nanoseconds from millisecond `ms` to nanosecond `elapsed_ns`, never negative.
pub open spec fn time_since(elapsed_ns: u128, ms: u64) -> int {
    if elapsed_ns >= ms * NANOS_PER_MS {
        elapsed_ns - ms * NANOS_PER_MS
    } else {
        0
    }
}

fn since(elapsed_ns: u128, ms: u64) -> (ns: u128)
    ensures
        ns == time_since(elapsed_ns, ms),
{
    elapsed_ns.saturating_sub(ms as u128 * NANOS_PER_MS)
}

/// Nothing has arrived on a runtime-subscribed stream recently. "Never" counts.
pub open spec fn silent(stats: LinkStats, elapsed_ns: u128) -> bool {
    stats.last_subscribed_ms == 0 || time_since(elapsed_ns, stats.last_subscribed_ms)
        > SUBSCRIPTION_SILENCE_NS
}

/// Whether nothing has arrived on a runtime-subscribed stream recently.
///
/// "Never" counts as silent, so the first keepalive after a connect that found no
/// flight application still re-asks, which is what makes a display recover when cFS
/// is restarted with the application loaded.
pub fn subscriptions_are_silent(stats: &LinkStats, elapsed_ns: u128) -> (yes: bool)
    ensures
        yes == silent(*stats, elapsed_ns),
{
    stats.last_subscribed_ms == 0 || since(elapsed_ns, stats.last_subscribed_ms)
        > SUBSCRIPTION_SILENCE_NS
}

/// Streams to ask `to_lab` for at connect time, with their queue depths.
///
/// The stock subscription table names only the bundle's own applications, so
/// anything the flight application publishes has to be requested at run time.
/// Vehicle state gets a queue of 4 because it is published at 10 Hz against
/// `to_lab`'s own slower service loop.
pub fn runtime_subscriptions(ids: &MsgIds) -> (s: [(MsgId, u8); 2])
    ensures
        s == [(ids.rust_app_vehicle_tlm, 4u8), (ids.rust_app_hk_tlm, 1u8)],
{
    [(ids.rust_app_vehicle_tlm, 4), (ids.rust_app_hk_tlm, 1)]
}

/// A stream the link asked for at run time.
pub open spec fn is_subscribed(ids: MsgIds, stream_id: int) -> bool {
    stream_id == ids.rust_app_vehicle_tlm.0 || stream_id == ids.rust_app_hk_tlm.0
}

/// The 14-bit sequence count after `seq`.
pub open spec fn seq_after(seq: u16) -> u16 {
    ((seq + 1) % 0x4000) as u16
}

fn bump(seq: u16) -> (next: u16)
    ensures
        next == seq_after(seq),
        next < 0x4000,
{
    ((seq as u32 + 1) % 0x4000) as u16
}

/// A received datagram, kept as raw bytes so decoding happens on the consumer's
/// side and the receiver stays free.
#[derive(Debug)]
pub struct RawPacket {
    pub bytes: Vec<u8>,
    /// Milliseconds since the link started.
    pub received_ms: u64,
}

/// What a [`RawPacket`] holds.
#[verifier::ext_equal]
pub struct Datagram {
    pub octets: Seq<u8>,
    pub received_ms: u64,
}

impl View for RawPacket {
    type V = Datagram;

    open spec fn view(&self) -> Datagram {
        Datagram { octets: self.bytes@, received_ms: self.received_ms }
    }
}

impl RawPacket {
    pub fn parse(&self) -> (res: Result<SpacePacket<'_>, Error>)
        ensures
            match res {
                Ok(p) => packet::front_packet(self@.octets) == Ok::<Seq<u8>, Error>(p@)
                    && packet::is_packet(p@),
                Err(e) => packet::front_packet(self@.octets) == Err::<Seq<u8>, Error>(e),
            },
    {
        SpacePacket::parse(self.bytes.as_slice())
    }
}

/// The datagrams a sequence of raw packets holds.
pub open spec fn datagrams(v: Seq<RawPacket>) -> Seq<Datagram> {
    v.map_values(|r: RawPacket| r@)
}

/// A bounded queue after one more arrival: the oldest gives way, and a queue with
/// no room at all takes nothing.
pub open spec fn queued(queue: Seq<Datagram>, d: Datagram, depth: nat) -> Seq<Datagram> {
    if depth == 0 {
        queue
    } else if queue.len() < depth {
        queue.push(d)
    } else {
        queue.drop_first().push(d)
    }
}

/// What a link knows.
#[verifier::ext_equal]
pub struct LinkModel {
    pub msg_ids: MsgIds,
    pub depth: nat,
    pub stats: LinkStats,
    /// Sequence count of the last command.
    pub seq_count: u16,
    /// Sequence count of the last packet of each stream.
    pub last_seq: Map<u16, u16>,
    pub queue: Seq<Datagram>,
}

impl LinkModel {
    pub open spec fn started(msg_ids: MsgIds, depth: nat) -> LinkModel {
        LinkModel {
            msg_ids,
            depth,
            stats: LinkStats::zero(),
            seq_count: 0,
            last_seq: Map::empty(),
            queue: Seq::empty(),
        }
    }

    /// The queue is bounded and holds only what parses.
    pub open spec fn wf(self) -> bool {
        &&& self.queue.len() <= self.depth
        &&& forall|i: int|
            0 <= i < self.queue.len() ==> packet::front_packet(
                (#[trigger] self.queue[i]).octets,
            ) is Ok
    }

    /// A packet of `stream` with sequence count `seq` does not follow the one before
    /// it.
    pub open spec fn gap(self, stream: u16, seq: u16) -> bool {
        self.last_seq.contains_key(stream) && seq != seq_after(self.last_seq[stream])
    }

    /// After one datagram, `elapsed_ms` after the link started.
    pub open spec fn received(self, datagram: Seq<u8>, elapsed_ms: u64) -> LinkModel {
        match packet::front_packet(datagram) {
            Err(_) => LinkModel {
                stats: LinkStats {
                    parse_errors: self.stats.parse_errors.wrapping_add(1),
                    ..self.stats
                },
                ..self
            },
            Ok(p) => {
                let h = PrimaryHeader::of_octets(p);
                let stream = h.stream_id_of() as u16;
                let s = self.stats;
                LinkModel {
                    last_seq: self.last_seq.insert(stream, h.seq_count),
                    stats: LinkStats {
                        sequence_gaps: if self.gap(stream, h.seq_count) {
                            s.sequence_gaps.wrapping_add(1)
                        } else {
                            s.sequence_gaps
                        },
                        packets_received: s.packets_received.wrapping_add(1),
                        bytes_received: s.bytes_received.wrapping_add(datagram.len() as u64),
                        last_packet_ms: elapsed_ms,
                        last_subscribed_ms: if is_subscribed(self.msg_ids, stream as int) {
                            elapsed_ms
                        } else {
                            s.last_subscribed_ms
                        },
                        packets_dropped: if self.queue.len() < self.depth {
                            s.packets_dropped
                        } else {
                            s.packets_dropped.wrapping_add(1)
                        },
                        ..s
                    },
                    queue: queued(
                        self.queue,
                        Datagram { octets: datagram, received_ms: elapsed_ms },
                        self.depth,
                    ),
                    ..self
                }
            },
        }
    }

    /// After a sequence count was taken for a command.
    pub open spec fn numbered(self) -> LinkModel {
        LinkModel { seq_count: seq_after(self.seq_count), ..self }
    }

    /// After a command went out.
    pub open spec fn sent(self) -> LinkModel {
        LinkModel {
            stats: LinkStats {
                commands_sent: self.stats.commands_sent.wrapping_add(1),
                ..self.stats
            },
            ..self
        }
    }

    /// After everything received was handed over.
    pub open spec fn drained(self) -> LinkModel {
        LinkModel { queue: Seq::empty(), ..self }
    }

    /// After a run of datagrams, one after another.
    pub open spec fn received_all(self, run: Seq<Datagram>) -> LinkModel
        decreases run.len(),
    {
        if run.len() == 0 {
            self
        } else {
            self.received_all(run.drop_last()).received(
                run.last().octets,
                run.last().received_ms,
            )
        }
    }
}

/// The state of a link to cFS.
pub struct Link {
    msg_ids: MsgIds,
    depth: usize,
    stats: LinkStats,
    seq_count: u16,
    last_seq: HashMap<u16, u16>,
    queue: VecDeque<RawPacket>,
}

impl View for Link {
    type V = LinkModel;

    closed spec fn view(&self) -> LinkModel {
        LinkModel {
            msg_ids: self.msg_ids,
            depth: self.depth as nat,
            stats: self.stats,
            seq_count: self.seq_count,
            last_seq: self.last_seq@,
            queue: datagrams(self.queue@),
        }
    }
}

impl Link {
    /// Well-formed: see [`LinkModel::wf`].
    pub open spec fn wf(&self) -> bool {
        self@.wf()
    }

    pub fn new(msg_ids: MsgIds, queue_depth: usize) -> (l: Self)
        ensures
            l.wf(),
            l@ == LinkModel::started(msg_ids, queue_depth as nat),
    {
        let l = Link {
            msg_ids,
            depth: queue_depth,
            stats: LinkStats::default(),
            seq_count: 0,
            last_seq: HashMap::new(),
            queue: VecDeque::new(),
        };
        assert(l@ =~= LinkModel::started(msg_ids, queue_depth as nat));
        l
    }

    pub fn stats(&self) -> (s: LinkStats)
        ensures
            s == self@.stats,
    {
        self.stats
    }

    pub fn msg_ids(&self) -> (ids: MsgIds)
        ensures
            ids == self@.msg_ids,
    {
        self.msg_ids
    }

    /// Note one datagram off the telemetry socket, `elapsed_ms` after the link
    /// started.
    ///
    /// It is validated before it is queued: a malformed datagram raises the error
    /// counter here, and does not surface as a decode failure in a render system
    /// where it is much harder to attribute.
    pub fn on_datagram(&mut self, datagram: &[u8], elapsed_ms: u64)
        requires
            old(self).wf(),
        ensures
            final(self).wf(),
            final(self)@ == old(self)@.received(datagram@, elapsed_ms),
    {
        broadcast use vstd::std_specs::hash::group_hash_axioms;

        let ghost start = self@;
        let pkt = match SpacePacket::parse(datagram) {
            Ok(p) => p,
            Err(_) => {
                self.stats.parse_errors = self.stats.parse_errors.wrapping_add(1);
                assert(self@ =~= start.received(datagram@, elapsed_ms));
                return ;
            },
        };
        let h = pkt.primary();
        let sid: u16 = h.stream_id();
        let seq: u16 = h.seq_count;
        if let Some(prev) = self.last_seq.insert(sid, seq) {
            // 14-bit counter, wraps at 0x3FFF.
            if seq != bump(prev) {
                self.stats.sequence_gaps = self.stats.sequence_gaps.wrapping_add(1);
            }
        }
        self.stats.packets_received = self.stats.packets_received.wrapping_add(1);
        self.stats.bytes_received = self.stats.bytes_received.wrapping_add(datagram.len() as u64);
        self.stats.last_packet_ms = elapsed_ms;
        if sid == self.msg_ids.rust_app_vehicle_tlm.0 || sid == self.msg_ids.rust_app_hk_tlm.0 {
            self.stats.last_subscribed_ms = elapsed_ms;
        }
        let raw = RawPacket { bytes: octets::to_vec(datagram), received_ms: elapsed_ms };
        let ghost held = self.queue@;
        let ghost arrived = raw;
        if self.queue.len() < self.depth {
            self.queue.push_back(raw);
            assert(datagrams(self.queue@) =~= datagrams(held).push(arrived@));
        } else {
            self.stats.packets_dropped = self.stats.packets_dropped.wrapping_add(1);
            if self.depth > 0 {
                let _ = self.queue.pop_front();
                self.queue.push_back(raw);
                assert(datagrams(self.queue@) =~= datagrams(held).drop_first().push(arrived@));
            }
        }
        assert(self@ =~= start.received(datagram@, elapsed_ms));
    }

    /// Next command sequence count.
    pub fn next_seq(&mut self) -> (seq: u16)
        ensures
            seq == seq_after(old(self)@.seq_count),
            seq < 0x4000,
            final(self)@ == (LinkModel { seq_count: seq, ..old(self)@ }),
            final(self)@ == old(self)@.numbered(),
    {
        let ghost start = self@;
        self.seq_count = bump(self.seq_count);
        assert(self@ =~= LinkModel { seq_count: self.seq_count, ..start });
        self.seq_count
    }

    /// Note that a command went out on the socket.
    pub fn on_sent(&mut self)
        ensures
            final(self)@ == (LinkModel {
                stats: LinkStats {
                    commands_sent: old(self)@.stats.commands_sent.wrapping_add(1),
                    ..old(self)@.stats
                },
                ..old(self)@
            }),
            final(self)@ == old(self)@.sent(),
    {
        let ghost start = self@;
        self.stats.commands_sent = self.stats.commands_sent.wrapping_add(1);
        assert(self@ =~= LinkModel { stats: self.stats, ..start });
    }

    /// Whether the runtime-subscribed streams have been silent long enough to be
    /// worth asking for again.
    pub fn subscriptions_silent(&self, elapsed_ns: u128) -> (yes: bool)
        ensures
            yes == silent(self@.stats, elapsed_ns),
    {
        subscriptions_are_silent(&self.stats, elapsed_ns)
    }

    /// Move everything received since the last call to the end of `out`, returning
    /// how many were appended.
    pub fn drain_into(&mut self, out: &mut Vec<RawPacket>) -> (n: usize)
        requires
            old(self).wf(),
        ensures
            final(self).wf(),
            n == old(self)@.queue.len(),
            datagrams(final(out)@) == datagrams(old(out)@) + old(self)@.queue,
            final(self)@ == (LinkModel { queue: Seq::empty(), ..old(self)@ }),
            final(self)@ == old(self)@.drained(),
    {
        let ghost start = self@;
        let n: usize = self.queue.len();
        let ghost appended = datagrams(out@);
        assert(start.queue.take(0) =~= Seq::<Datagram>::empty());
        while self.queue.len() > 0
            invariant
                self.queue@.len() <= n == start.queue.len(),
                self@.queue == start.queue.skip(n - self.queue@.len()),
                self@ == (LinkModel { queue: self@.queue, ..start }),
                datagrams(out@) == appended + start.queue.take(n - self.queue@.len()),
            decreases self.queue@.len(),
        {
            let ghost held = self.queue@;
            let ghost so_far = out@;
            if let Some(raw) = self.queue.pop_front() {
                assert(datagrams(self.queue@) =~= datagrams(held).drop_first());
                assert(raw@ == datagrams(held)[0]);
                out.push(raw);
                assert(datagrams(out@) =~= datagrams(so_far).push(raw@));
                assert(self@.queue =~= start.queue.skip(n - self.queue@.len()));
                assert(self@ =~= LinkModel { queue: self@.queue, ..start });
                assert(datagrams(out@) =~= appended + start.queue.take(n - self.queue@.len()));
            }
        }
        assert(start.queue.take(n as int) =~= start.queue);
        assert(self@.queue =~= Seq::<Datagram>::empty());
        n
    }

    /// Everything received since the last call.
    pub fn drain(&mut self) -> (out: Vec<RawPacket>)
        requires
            old(self).wf(),
        ensures
            final(self).wf(),
            datagrams(out@) == old(self)@.queue,
            final(self)@ == (LinkModel { queue: Seq::empty(), ..old(self)@ }),
            final(self)@ == old(self)@.drained(),
    {
        let mut out: Vec<RawPacket> = Vec::new();
        let ghost pending = self@.queue;
        let _ = self.drain_into(&mut out);
        assert(datagrams(Seq::<RawPacket>::empty()) + pending =~= pending);
        out
    }

    /// The command that tells `to_lab` to send telemetry to `dest_ip`. It takes the
    /// next sequence count whether or not the address fits.
    pub fn enable_output(&mut self, dest_ip: &str) -> (res: Result<Vec<u8>, Error>)
        ensures
            vec_result(res) == to_lab::built_enable_output(
                64,
                old(self)@.msg_ids.to_lab_cmd,
                seq_after(old(self)@.seq_count),
                vstd::utf8::encode_utf8(dest_ip@),
            ),
            final(self)@ == (LinkModel { seq_count: seq_after(old(self)@.seq_count), ..old(self)@ }),
            final(self)@ == old(self)@.numbered(),
    {
        let seq: u16 = self.next_seq();
        let mut buf: [u8; 64] = [0u8;64];
        match to_lab::enable_output(&mut buf, self.msg_ids.to_lab_cmd, seq, dest_ip) {
            Ok(p) => Ok(octets::to_vec(p)),
            Err(e) => Err(e),
        }
    }

    /// The commands that ask `to_lab` for the packets that are not in its
    /// compiled-in table, one sequence count each.
    pub fn subscribe_runtime_packets(&mut self) -> (out: (Vec<u8>, Vec<u8>))
        ensures
            out.0@ == subscription(
                old(self)@.msg_ids,
                seq_after(old(self)@.seq_count),
                old(self)@.msg_ids.rust_app_vehicle_tlm,
                4,
            ),
            out.1@ == subscription(
                old(self)@.msg_ids,
                seq_after(seq_after(old(self)@.seq_count)),
                old(self)@.msg_ids.rust_app_hk_tlm,
                1,
            ),
            final(self)@ == (LinkModel {
                seq_count: seq_after(seq_after(old(self)@.seq_count)),
                ..old(self)@
            }),
            (out.0@, out.1@) == resubscription(
                old(self)@.msg_ids,
                seq_after(old(self)@.seq_count),
            ),
            final(self)@ == old(self)@.numbered().numbered(),
    {
        let subscriptions = runtime_subscriptions(&self.msg_ids);
        let first: u16 = self.next_seq();
        let one = build_subscription(&self.msg_ids, first, subscriptions[0].0, subscriptions[0].1);
        let second: u16 = self.next_seq();
        let two = build_subscription(&self.msg_ids, second, subscriptions[1].0, subscriptions[1].1);
        (one, two)
    }
}

/// A result holding a vector, seen through its view.
pub open spec fn vec_result(res: Result<Vec<u8>, Error>) -> Result<Seq<u8>, Error> {
    match res {
        Ok(v) => Ok(v@),
        Err(e) => Err(e),
    }
}

/// The add-packet command for one stream.
pub open spec fn subscription(ids: MsgIds, seq: u16, stream: MsgId, depth: u8) -> Seq<u8> {
    command::command_octets(
        ids.to_lab_cmd,
        to_lab::ADD_PKT_CC,
        seq,
        to_lab::add_packet_payload(stream, depth),
    )
}

/// The two commands that ask for the streams of [`runtime_subscriptions`], numbered from
/// `seq` on.
pub open spec fn resubscription(ids: MsgIds, seq: u16) -> (Seq<u8>, Seq<u8>) {
    (
        subscription(ids, seq, ids.rust_app_vehicle_tlm, 4),
        subscription(ids, seq_after(seq), ids.rust_app_hk_tlm, 1),
    )
}

/// The sequence count after a keepalive cycle that starts with `seq`.
pub open spec fn seq_after_cycle(seq: u16, silent: bool) -> u16 {
    if silent {
        seq_after(seq_after(seq_after(seq)))
    } else {
        seq_after(seq)
    }
}

fn build_subscription(ids: &MsgIds, seq: u16, stream: MsgId, depth: u8) -> (out: Vec<u8>)
    ensures
        out@ == subscription(*ids, seq, stream, depth),
{
    let mut buf: [u8; 64] = [0u8;64];
    match to_lab::add_packet(&mut buf, ids.to_lab_cmd, seq, stream, depth) {
        Ok(p) => octets::to_vec(p),
        Err(_) => {
            assert(false);
            Vec::new()
        },
    }
}

/// What one keepalive cycle puts on the wire.
pub struct Keepalive {
    /// The enable-output command, unless the address does not fit its field.
    pub enable: Option<Vec<u8>>,
    /// The two subscriptions, when the subscribed streams have gone quiet.
    pub subscriptions: Option<(Vec<u8>, Vec<u8>)>,
    /// Sequence count to start the next cycle with.
    pub next_seq: u16,
}

/// One keepalive cycle: enable-output always, the subscriptions only after
/// silence. Every command takes a sequence count, sent or not.
pub fn keepalive(ids: &MsgIds, seq: u16, dest_ip: &str, silent: bool) -> (k: Keepalive)
    ensures
        match to_lab::built_enable_output(
            64,
            ids.to_lab_cmd,
            seq,
            vstd::utf8::encode_utf8(dest_ip@),
        ) {
            Ok(p) => k.enable matches Some(v) && v@ == p,
            Err(_) => k.enable is None,
        },
        !silent ==> k.subscriptions is None && k.next_seq == seq_after(seq),
        silent ==> {
            &&& k.subscriptions matches Some(s)
            &&& s.0@ == subscription(*ids, seq_after(seq), ids.rust_app_vehicle_tlm, 4)
            &&& s.1@ == subscription(*ids, seq_after(seq_after(seq)), ids.rust_app_hk_tlm, 1)
            &&& k.next_seq == seq_after(seq_after(seq_after(seq)))
            &&& (s.0@, s.1@) == resubscription(*ids, seq_after(seq))
        },
        k.next_seq == seq_after_cycle(seq, silent),
{
    let mut buf: [u8; 64] = [0u8;64];
    let enable = match to_lab::enable_output(&mut buf, ids.to_lab_cmd, seq, dest_ip) {
        Ok(p) => Some(octets::to_vec(p)),
        Err(_) => None,
    };
    let first: u16 = bump(seq);
    if !silent {
        return Keepalive { enable, subscriptions: None, next_seq: first };
    }
    let subscriptions = runtime_subscriptions(ids);
    let one = build_subscription(ids, first, subscriptions[0].0, subscriptions[0].1);
    let second: u16 = bump(first);
    let two = build_subscription(ids, second, subscriptions[1].0, subscriptions[1].1);
    Keepalive { enable, subscriptions: Some((one, two)), next_seq: bump(second) }
}

/// The datagrams of a run that hold a packet.
pub open spec fn parsing(run: Seq<Datagram>) -> Seq<Datagram> {
    run.filter(|d: Datagram| packet::front_packet(d.octets) is Ok)
}

/// The last `depth` of `s`.
pub open spec fn newest(s: Seq<Datagram>, depth: nat) -> Seq<Datagram> {
    if s.len() > depth {
        s.skip(s.len() - depth)
    } else {
        s
    }
}

/// A counter that wraps around, after `n` more.
pub open spec fn counted_on(c: u64, n: nat) -> u64 {
    ((c + n) % 0x1_0000_0000_0000_0000) as u64
}

/// A run that holds a packet more, or not, by its last datagram.
proof fn lemma_parsing(run: Seq<Datagram>)
    requires
        run.len() > 0,
    ensures
        packet::front_packet(run.last().octets) is Ok ==> parsing(run) == parsing(
            run.drop_last(),
        ).push(run.last()),
        packet::front_packet(run.last().octets) is Err ==> parsing(run) == parsing(
            run.drop_last(),
        ),
        parsing(run.drop_last()).len() <= run.len() - 1,
{
    reveal(Seq::filter);
    lemma_parsing_is_shorter(run.drop_last());
}

proof fn lemma_parsing_is_shorter(run: Seq<Datagram>)
    ensures
        parsing(run).len() <= run.len(),
    decreases run.len(),
{
    reveal(Seq::filter);
    if run.len() > 0 {
        lemma_parsing_is_shorter(run.drop_last());
    }
}

proof fn lemma_counted_on(c: u64, n: nat, k: u64)
    ensures
        counted_on(c, 0) == c,
        counted_on(c, n).wrapping_add(k) == counted_on(c, n + k as nat),
{
}

proof fn lemma_newest(s: Seq<Datagram>, d: Datagram, depth: nat)
    ensures
        newest(s.push(d), depth) == queued(newest(s, depth), d, depth),
{
    assert(newest(s.push(d), depth) =~= queued(newest(s, depth), d, depth));
}

/// What one datagram that holds a packet changes of a run.
proof fn lemma_received(m: LinkModel, d: Datagram)
    requires
        packet::front_packet(d.octets) is Ok,
    ensures
        ({
            let after = m.received(d.octets, d.received_ms);
            &&& after.depth == m.depth
            &&& after.queue == queued(m.queue, d, m.depth)
            &&& after.last_seq == m.last_seq.insert(stream_in(d), count_in(d))
            &&& after.stats.packets_dropped == m.stats.packets_dropped.wrapping_add(
                if m.queue.len() < m.depth {
                    0
                } else {
                    1
                },
            )
            &&& after.stats.packets_received == m.stats.packets_received.wrapping_add(1)
            &&& after.stats.parse_errors == m.stats.parse_errors
            &&& after.stats.bytes_received == m.stats.bytes_received.wrapping_add(
                d.octets.len() as u64,
            )
            &&& after.stats.sequence_gaps == m.stats.sequence_gaps.wrapping_add(
                if m.gap(stream_in(d), count_in(d)) {
                    1
                } else {
                    0
                },
            )
        }),
{
    assert(Datagram { octets: d.octets, received_ms: d.received_ms } =~= d);
}

/// A consumer that stalls finds the newest packets waiting, as many as the queue
/// holds, oldest of them first: what was dropped is what was oldest, and every drop
/// is counted.
pub proof fn a_stalled_consumer_finds_the_newest(m: LinkModel, run: Seq<Datagram>)
    requires
        m.wf(),
    ensures
        ({
            let arrived = m.queue + parsing(run);
            let after = m.received_all(run);
            &&& after.queue == newest(arrived, m.depth)
            &&& after.depth == m.depth
            &&& after.stats.packets_dropped == counted_on(
                m.stats.packets_dropped,
                (arrived.len() - after.queue.len()) as nat,
            )
        }),
    decreases run.len(),
{
    if run.len() == 0 {
        reveal(Seq::filter);
        assert(m.queue + parsing(run) =~= m.queue);
        lemma_counted_on(m.stats.packets_dropped, 0, 0);
    } else {
        let last = run.last();
        let head = m.queue + parsing(run.drop_last());
        a_stalled_consumer_finds_the_newest(m, run.drop_last());
        lemma_parsing(run);
        if packet::front_packet(last.octets) is Ok {
            let before = m.received_all(run.drop_last());
            lemma_received(before, last);
            lemma_newest(head, last, m.depth);
            assert(m.queue + parsing(run) =~= head.push(last));
            lemma_counted_on(
                m.stats.packets_dropped,
                (head.len() - before.queue.len()) as nat,
                if before.queue.len() < m.depth {
                    0
                } else {
                    1
                },
            );
        } else {
            a_malformed_datagram_is_only_counted(
                m.received_all(run.drop_last()),
                last.octets,
                last.received_ms,
            );
        }
    }
}

/// The stream a datagram's packet belongs to.
pub open spec fn stream_in(d: Datagram) -> u16 {
    PrimaryHeader::of_octets(packet::front_packet(d.octets)->Ok_0).stream_id_of() as u16
}

/// The sequence count of a datagram's packet.
pub open spec fn count_in(d: Datagram) -> u16 {
    PrimaryHeader::of_octets(packet::front_packet(d.octets)->Ok_0).seq_count
}

/// The sequence count of the latest of some packets on `stream`, or what was known of
/// it before them.
pub open spec fn latest_count(known: Map<u16, u16>, packets: Seq<Datagram>, stream: u16) -> Option<
    u16,
>
    decreases packets.len(),
{
    if packets.len() == 0 {
        if known.contains_key(stream) {
            Some(known[stream])
        } else {
            None
        }
    } else if stream_in(packets.last()) == stream {
        Some(count_in(packets.last()))
    } else {
        latest_count(known, packets.drop_last(), stream)
    }
}

/// How many of some packets do not follow the one before them on their stream.
pub open spec fn gaps_in(known: Map<u16, u16>, packets: Seq<Datagram>) -> nat
    decreases packets.len(),
{
    if packets.len() == 0 {
        0
    } else {
        let d = packets.last();
        let head = packets.drop_last();
        gaps_in(known, head) + (match latest_count(known, head, stream_in(d)) {
            Some(c) if count_in(d) != seq_after(c) => 1nat,
            _ => 0nat,
        })
    }
}

/// Octets of some datagrams.
pub open spec fn octets_in(packets: Seq<Datagram>) -> nat
    decreases packets.len(),
{
    if packets.len() == 0 {
        0
    } else {
        octets_in(packets.drop_last()) + packets.last().octets.len()
    }
}

/// The counters add up over any run: what parses is counted with its octets and its
/// gaps, and the rest as errors.
pub proof fn every_datagram_is_counted(m: LinkModel, run: Seq<Datagram>)
    requires
        forall|i: int| 0 <= i < run.len() ==> (#[trigger] run[i]).octets.len() <= u64::MAX,
    ensures
        ({
            let packets = parsing(run);
            let before = m.stats;
            let after = m.received_all(run).stats;
            &&& packets.len() <= run.len()
            &&& after.packets_received == counted_on(before.packets_received, packets.len())
            &&& after.parse_errors == counted_on(
                before.parse_errors,
                (run.len() - packets.len()) as nat,
            )
            &&& after.bytes_received == counted_on(before.bytes_received, octets_in(packets))
            &&& after.sequence_gaps == counted_on(
                before.sequence_gaps,
                gaps_in(m.last_seq, packets),
            )
        }),
        forall|stream: u16| #[trigger]
            m.received_all(run).last_seq.contains_key(stream) <==> latest_count(
                m.last_seq,
                parsing(run),
                stream,
            ) is Some,
        forall|stream: u16|
            m.received_all(run).last_seq.contains_key(stream) ==> Some(
                #[trigger] m.received_all(run).last_seq[stream],
            ) == latest_count(m.last_seq, parsing(run), stream),
    decreases run.len(),
{
    if run.len() == 0 {
        reveal(Seq::filter);
        lemma_counted_on(m.stats.packets_received, 0, 0);
        lemma_counted_on(m.stats.parse_errors, 0, 0);
        lemma_counted_on(m.stats.bytes_received, 0, 0);
        lemma_counted_on(m.stats.sequence_gaps, 0, 0);
    } else {
        let head = run.drop_last();
        let last = run.last();
        assert forall|i: int| 0 <= i < head.len() implies (#[trigger] head[i]).octets.len()
            <= u64::MAX by {
            assert(head[i] == run[i]);
        }
        assert(run[run.len() - 1] == last);
        every_datagram_is_counted(m, head);
        lemma_parsing(run);
        let before = m.received_all(head);
        let packets = parsing(head);
        let errors = (head.len() - packets.len()) as nat;
        if packet::front_packet(last.octets) is Ok {
            lemma_received(before, last);
            assert(parsing(run).drop_last() =~= packets);
            let gap: u64 = if before.gap(stream_in(last), count_in(last)) {
                1
            } else {
                0
            };
            lemma_counted_on(m.stats.packets_received, packets.len(), 1);
            lemma_counted_on(
                m.stats.bytes_received,
                octets_in(packets),
                last.octets.len() as u64,
            );
            lemma_counted_on(m.stats.sequence_gaps, gaps_in(m.last_seq, packets), gap);
        } else {
            a_malformed_datagram_is_only_counted(before, last.octets, last.received_ms);
            lemma_counted_on(m.stats.parse_errors, errors, 1);
        }
    }
}

/// A malformed datagram is counted and not delivered: nothing but the error
/// counter changes.
pub proof fn a_malformed_datagram_is_only_counted(m: LinkModel, datagram: Seq<u8>, elapsed_ms: u64)
    requires
        packet::front_packet(datagram) is Err,
    ensures
        m.received(datagram, elapsed_ms).queue == m.queue,
        m.received(datagram, elapsed_ms).last_seq == m.last_seq,
        m.received(datagram, elapsed_ms).stats == (LinkStats {
            parse_errors: m.stats.parse_errors.wrapping_add(1),
            ..m.stats
        }),
{
}

/// Two packets of one stream with consecutive sequence counts leave no gap, across
/// the wrap of the 14-bit counter too; any other pair leaves exactly one.
pub proof fn only_a_skipped_count_is_a_gap(m: LinkModel, one: Seq<u8>, other: Seq<u8>, t: u64, u: u64)
    requires
        packet::is_packet(one),
        packet::is_packet(other),
        PrimaryHeader::of_octets(one).stream_id_of() == PrimaryHeader::of_octets(
            other,
        ).stream_id_of(),
    ensures
        ({
            let a = PrimaryHeader::of_octets(one).seq_count;
            let b = PrimaryHeader::of_octets(other).seq_count;
            let before = m.received(one, t).stats.sequence_gaps;
            let after = m.received(one, t).received(other, u).stats.sequence_gaps;
            &&& b == a + 1 || (a == 0x3FFF && b == 0) ==> after == before
            &&& !(b == a + 1 || (a == 0x3FFF && b == 0)) ==> after == before.wrapping_add(1)
        }),
{
    packet::a_packet_is_self_delimiting(one, Seq::empty());
    packet::a_packet_is_self_delimiting(other, Seq::empty());
    assert(one + Seq::<u8>::empty() =~= one);
    assert(other + Seq::<u8>::empty() =~= other);
}

/// A datagram starts with a packet: version zero, and all of the length it announces.
pub open spec fn holds_packet(b: Seq<u8>) -> bool {
    b.len() >= 6 && b[0] < 0x20 && b.len() >= b[4] * 0x100 + b[5] + 7
}

/// A datagram starts with a packet of the vehicle's state or of the flight
/// application's housekeeping, by its first two octets.
pub open spec fn answers_subscription(ids: MsgIds, b: Seq<u8>) -> bool {
    &&& holds_packet(b)
    &&& b[0] * 0x100 + b[1] == ids.rust_app_vehicle_tlm.0 || b[0] * 0x100 + b[1]
        == ids.rust_app_hk_tlm.0
}

/// Everything that one datagram changes, by its octets. One that holds no packet is an
/// error and no more. One that does is counted with its octets, takes its place at the
/// end of the queue, and is the latest of its stream; it is a gap unless it follows the
/// one before it. Only a subscribed stream breaks the silence.
pub proof fn each_datagram_is_noted(m: LinkModel, b: Seq<u8>, elapsed_ms: u64)
    requires
        m.wf(),
        b.len() <= u64::MAX,
    ensures
        ({
            let after = m.received(b, elapsed_ms);
            let stream = (b[0] * 0x100 + b[1]) as u16;
            let count = b[2] % 0x40 * 0x100 + b[3];
            &&& after.msg_ids == m.msg_ids
            &&& after.depth == m.depth
            &&& after.seq_count == m.seq_count
            &&& after.stats.commands_sent == m.stats.commands_sent
            &&& !holds_packet(b) ==> {
                &&& after.queue == m.queue
                &&& after.last_seq == m.last_seq
                &&& after.stats.parse_errors == m.stats.parse_errors.wrapping_add(1)
                &&& after.stats.packets_received == m.stats.packets_received
                &&& after.stats.bytes_received == m.stats.bytes_received
                &&& after.stats.packets_dropped == m.stats.packets_dropped
                &&& after.stats.sequence_gaps == m.stats.sequence_gaps
                &&& after.stats.last_packet_ms == m.stats.last_packet_ms
                &&& after.stats.last_subscribed_ms == m.stats.last_subscribed_ms
            }
            &&& holds_packet(b) ==> {
                &&& after.stats.parse_errors == m.stats.parse_errors
                &&& after.stats.packets_received == m.stats.packets_received.wrapping_add(1)
                &&& after.stats.bytes_received == m.stats.bytes_received.wrapping_add(
                    b.len() as u64,
                )
                &&& after.stats.last_packet_ms == elapsed_ms
                &&& after.stats.last_subscribed_ms == (if answers_subscription(m.msg_ids, b) {
                    elapsed_ms
                } else {
                    m.stats.last_subscribed_ms
                })
                &&& after.last_seq.contains_key(stream) && after.last_seq[stream] == count
                &&& forall|other: u16|
                    other != stream ==> (#[trigger] after.last_seq.contains_key(other)
                        == m.last_seq.contains_key(other) && after.last_seq[other]
                        == m.last_seq[other])
                &&& after.stats.sequence_gaps == (if m.last_seq.contains_key(stream) && count != (
                m.last_seq[stream] + 1) % 0x4000 {
                    m.stats.sequence_gaps.wrapping_add(1)
                } else {
                    m.stats.sequence_gaps
                })
                &&& m.depth > 0 ==> after.queue.len() > 0 && after.queue.last().octets == b
                    && after.queue.last().received_ms == elapsed_ms
                &&& m.queue.len() < m.depth ==> after.queue.drop_last() == m.queue
                    && after.stats.packets_dropped == m.stats.packets_dropped
                &&& m.queue.len() == m.depth ==> after.stats.packets_dropped
                    == m.stats.packets_dropped.wrapping_add(1) && after.queue.len()
                    == m.queue.len()
                &&& 0 < m.queue.len() == m.depth ==> after.queue.drop_last()
                    == m.queue.drop_first()
            }
        }),
{
    lemma_holds_packet(b);
    let after = m.received(b, elapsed_ms);
    if holds_packet(b) {
        if m.queue.len() < m.depth {
            assert(after.queue.drop_last() =~= m.queue);
        } else if m.queue.len() > 0 {
            assert(after.queue.drop_last() =~= m.queue.drop_first());
        }
    }
}

proof fn lemma_holds_packet(b: Seq<u8>)
    ensures
        holds_packet(b) <==> packet::front_packet(b) is Ok,
        packet::front_packet(b) is Ok ==> {
            let h = PrimaryHeader::of_octets(packet::front_packet(b)->Ok_0);
            &&& h.stream_id_of() == b[0] * 0x100 + b[1]
            &&& h.seq_count == b[2] % 0x40 * 0x100 + b[3]
        },
{
}

/// What one datagram does to the two times that a link remembers.
proof fn lemma_times(m: LinkModel, d: Datagram)
    ensures
        ({
            let after = m.received(d.octets, d.received_ms);
            &&& after.msg_ids == m.msg_ids
            &&& after.stats.last_packet_ms == (if holds_packet(d.octets) {
                d.received_ms
            } else {
                m.stats.last_packet_ms
            })
            &&& after.stats.last_subscribed_ms == (if answers_subscription(m.msg_ids, d.octets) {
                d.received_ms
            } else {
                m.stats.last_subscribed_ms
            })
        }),
{
    lemma_holds_packet(d.octets);
}

/// After any run of datagrams the link remembers when the latest packet arrived on a
/// subscribed stream, whatever else arrived after it.
pub proof fn the_latest_subscribed_packet_is_remembered(m: LinkModel, run: Seq<Datagram>, i: int)
    requires
        0 <= i < run.len(),
        answers_subscription(m.msg_ids, run[i].octets),
        forall|j: int|
            i < j < run.len() ==> !answers_subscription(m.msg_ids, (#[trigger] run[j]).octets),
    ensures
        m.received_all(run).stats.last_subscribed_ms == run[i].received_ms,
        m.received_all(run).msg_ids == m.msg_ids,
    decreases run.len(),
{
    let head = run.drop_last();
    lemma_ids_stay(m, head);
    lemma_times(m.received_all(head), run.last());
    if i < head.len() {
        assert(head[i] == run[i]);
        assert forall|j: int| i < j < head.len() implies !answers_subscription(
            m.msg_ids,
            (#[trigger] head[j]).octets,
        ) by {
            assert(head[j] == run[j]);
        }
        the_latest_subscribed_packet_is_remembered(m, head, i);
    }
}

proof fn lemma_ids_stay(m: LinkModel, run: Seq<Datagram>)
    ensures
        m.received_all(run).msg_ids == m.msg_ids,
    decreases run.len(),
{
    if run.len() > 0 {
        lemma_ids_stay(m, run.drop_last());
        lemma_times(m.received_all(run.drop_last()), run.last());
    }
}

/// Traffic on other streams, however much, leaves a silent link silent, and a link that
/// is not silent becomes so no later for it.
pub proof fn other_traffic_does_not_break_the_silence(
    m: LinkModel,
    run: Seq<Datagram>,
    elapsed_ns: u128,
)
    requires
        forall|j: int|
            0 <= j < run.len() ==> !answers_subscription(m.msg_ids, (#[trigger] run[j]).octets),
    ensures
        m.received_all(run).stats.last_subscribed_ms == m.stats.last_subscribed_ms,
        silent(m.received_all(run).stats, elapsed_ns) == silent(m.stats, elapsed_ns),
    decreases run.len(),
{
    if run.len() > 0 {
        let head = run.drop_last();
        assert forall|j: int| 0 <= j < head.len() implies !answers_subscription(
            m.msg_ids,
            (#[trigger] head[j]).octets,
        ) by {
            assert(head[j] == run[j]);
        }
        other_traffic_does_not_break_the_silence(m, head, elapsed_ns);
        lemma_ids_stay(m, head);
        lemma_times(m.received_all(head), run.last());
        assert(run[run.len() - 1] == run.last());
    }
}

/// A packet on a subscribed stream ends the silence for four seconds to the nanosecond.
pub proof fn a_subscribed_packet_ends_the_silence(
    m: LinkModel,
    b: Seq<u8>,
    elapsed_ms: u64,
    now_ns: u128,
)
    requires
        answers_subscription(m.msg_ids, b),
        elapsed_ms > 0,
    ensures
        silent(m.received(b, elapsed_ms).stats, now_ns) <==> now_ns > elapsed_ms * 1_000_000
            + 4_000_000_000,
{
    lemma_times(m, Datagram { octets: b, received_ms: elapsed_ms });
}

/// A link that has never heard a subscribed stream is silent at every instant; so is a
/// link that has just started.
pub proof fn never_is_silent(m: LinkModel, now_ns: u128, ids: MsgIds, depth: nat)
    ensures
        m.stats.last_subscribed_ms == 0 ==> silent(m.stats, now_ns),
        silent(LinkModel::started(ids, depth).stats, now_ns),
        LinkModel::started(ids, depth).wf(),
        LinkModel::started(ids, depth).msg_ids == ids,
        LinkModel::started(ids, depth).depth == depth,
        LinkModel::started(ids, depth).queue.len() == 0,
        LinkModel::started(ids, depth).seq_count == 0,
        LinkModel::started(ids, depth).last_seq.dom().is_empty(),
        LinkModel::started(ids, depth).stats == (LinkStats {
            packets_received: 0,
            last_subscribed_ms: 0,
            bytes_received: 0,
            packets_dropped: 0,
            parse_errors: 0,
            sequence_gaps: 0,
            commands_sent: 0,
            last_packet_ms: 0,
        }),
{
}

/// After any run of datagrams the link remembers when the latest packet of any stream
/// arrived; a run without one leaves that time alone.
pub proof fn the_latest_packet_is_remembered(m: LinkModel, run: Seq<Datagram>, i: int)
    requires
        -1 <= i < run.len(),
        i >= 0 ==> holds_packet(run[i].octets),
        forall|j: int| i < j < run.len() ==> !holds_packet((#[trigger] run[j]).octets),
    ensures
        m.received_all(run).stats.last_packet_ms == (if i >= 0 {
            run[i].received_ms
        } else {
            m.stats.last_packet_ms
        }),
    decreases run.len(),
{
    if run.len() > 0 {
        let head = run.drop_last();
        lemma_times(m.received_all(head), run.last());
        assert(run[run.len() - 1] == run.last());
        if i < head.len() {
            assert(i >= 0 ==> head[i] == run[i]);
            assert forall|j: int| i < j < head.len() implies !holds_packet(
                (#[trigger] head[j]).octets,
            ) by {
                assert(head[j] == run[j]);
            }
            the_latest_packet_is_remembered(m, head, i);
        }
    }
}

/// Age never runs backwards: it is the time since the packet, and zero before it.
pub proof fn age_counts_from_the_packet(elapsed_ns: u128, ms: u64)
    ensures
        elapsed_ns >= ms * 1_000_000 ==> time_since(elapsed_ns, ms) + ms * 1_000_000 == elapsed_ns,
        elapsed_ns < ms * 1_000_000 ==> time_since(elapsed_ns, ms) == 0,
{
}

/// Sequence counts go up by one and start over after the largest that 14 bits hold.
pub proof fn sequence_counts_start_over(seq: u16)
    ensures
        seq < 0x3FFF ==> seq_after(seq) == seq + 1,
        seq == 0x3FFF ==> seq_after(seq) == 0,
        seq_after(seq) < 0x4000,
        (seq_after(seq) - seq - 1) % 0x4000 == 0,
{
}

/// A subscription is an add-packet command to `to_lab`, function code 2, that names the
/// stream, low octet first, and the depth of its queue.
#[verifier::rlimit(40)]
#[verifier::spinoff_prover]
pub proof fn a_subscription_names_its_stream(ids: MsgIds, seq: u16, stream: MsgId, depth: u8)
    ensures
        ({
            let p = subscription(ids, seq, stream, depth);
            &&& p.len() == 16
            &&& p[0] * 0x100 + p[1] == 0x1800 + ids.to_lab_cmd.0 % 0x800
            &&& p[2] * 0x100 + p[3] == 0xC000 + seq % 0x4000
            &&& p[4] * 0x100 + p[5] == 9
            &&& p[6] == 2
            &&& p[8] + p[9] * 0x100 == stream.0
            &&& p[10] == 0 && p[11] == 0 && p[12] == 0 && p[13] == 0
            &&& p[14] == depth
            &&& p[15] == 0
        }),
{
    let p = subscription(ids, seq, stream, depth);
    let payload = to_lab::add_packet_payload(stream, depth);
    command::a_command_is_laid_out_octet_for_octet(
        ids.to_lab_cmd,
        to_lab::ADD_PKT_CC,
        seq,
        payload,
    );
    to_lab::an_added_stream_is_eight_octets(stream, depth);
    assert forall|i: int| 8 <= i < 16 implies #[trigger] p[i] == payload[i - 8] by {
        assert(p.skip(8)[i - 8] == p[i]);
    }
}

/// Taking a sequence count, noting that a command went out and handing over what was
/// received each change one thing: the count goes up by one in 14 bits, the command
/// counter by one, and the queue is empty.
pub proof fn each_operation_minds_its_own(m: LinkModel)
    ensures
        ({
            let n = m.numbered();
            &&& n.seq_count == (m.seq_count + 1) % 0x4000
            &&& n.stats == m.stats
            &&& n.queue == m.queue
            &&& n.last_seq == m.last_seq
            &&& n.msg_ids == m.msg_ids
            &&& n.depth == m.depth
        }),
        ({
            let s = m.sent();
            &&& s.stats.commands_sent == m.stats.commands_sent.wrapping_add(1)
            &&& s.stats.packets_received == m.stats.packets_received
            &&& s.stats.last_subscribed_ms == m.stats.last_subscribed_ms
            &&& s.stats.bytes_received == m.stats.bytes_received
            &&& s.stats.packets_dropped == m.stats.packets_dropped
            &&& s.stats.parse_errors == m.stats.parse_errors
            &&& s.stats.sequence_gaps == m.stats.sequence_gaps
            &&& s.stats.last_packet_ms == m.stats.last_packet_ms
            &&& s.seq_count == m.seq_count
            &&& s.queue == m.queue
            &&& s.last_seq == m.last_seq
            &&& s.msg_ids == m.msg_ids
            &&& s.depth == m.depth
        }),
        ({
            let d = m.drained();
            &&& d.queue.len() == 0
            &&& d.stats == m.stats
            &&& d.seq_count == m.seq_count
            &&& d.last_seq == m.last_seq
            &&& d.msg_ids == m.msg_ids
            &&& d.depth == m.depth
        }),
{
}

/// The two streams that are asked for are the vehicle's state, with a queue of four, and
/// the flight application's housekeeping, with a queue of one, under consecutive sequence
/// counts.
pub proof fn two_streams_are_asked_for(ids: MsgIds, seq: u16)
    ensures
        ({
            let (a, b) = resubscription(ids, seq);
            &&& a.len() == 16 && b.len() == 16
            &&& a[8] + a[9] * 0x100 == ids.rust_app_vehicle_tlm.0
            &&& a[14] == 4
            &&& b[8] + b[9] * 0x100 == ids.rust_app_hk_tlm.0
            &&& b[14] == 1
            &&& a[2] * 0x100 + a[3] == 0xC000 + seq % 0x4000
            &&& b[2] * 0x100 + b[3] == 0xC000 + (seq + 1) % 0x4000
        }),
{
    a_subscription_names_its_stream(ids, seq, ids.rust_app_vehicle_tlm, 4);
    a_subscription_names_its_stream(ids, seq_after(seq), ids.rust_app_hk_tlm, 1);
}

/// A keepalive cycle takes one sequence count, and two more where the subscribed streams
/// are silent.
pub proof fn a_cycle_takes_a_count_for_each_command(seq: u16, silent: bool)
    ensures
        seq_after_cycle(seq, silent) == (seq + (if silent {
            3int
        } else {
            1int
        })) % 0x4000,
{
}

/// A link that never heard a packet has no age; one that did is as old as its last one,
/// and never negative.
pub proof fn a_link_is_as_old_as_its_last_packet(stats: LinkStats, elapsed_ns: u128)
    ensures
        age_of(stats, elapsed_ns) is None <==> stats.last_packet_ms == 0,
        ({
            let heard = stats.last_packet_ms * 1_000_000;
            &&& stats.last_packet_ms > 0 && elapsed_ns >= heard ==> age_of(stats, elapsed_ns)->0
                == elapsed_ns - heard
            &&& stats.last_packet_ms > 0 && elapsed_ns < heard ==> age_of(stats, elapsed_ns)->0
                == 0
        }),
{
}

} // verus!
