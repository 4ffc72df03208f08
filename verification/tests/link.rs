use cfs_telemetry::capture::{push_frame, split_frames, Summary};
use cfs_telemetry::ccsds::{PacketType, PrimaryHeader, SpacePacket, TlmSecondaryHeader};
use cfs_telemetry::ground::{build_packet, CfsCommand, DecodeConfig, Ground, Housekeeping};
use cfs_telemetry::link::{
    keepalive, subscriptions_are_silent, Link, LinkStats, DEFAULT_QUEUE_DEPTH, DEFAULT_TLM_PORT,
};
use cfs_telemetry::model::{
    decode_vehicle_state, BufferConfig, Freshness, Mode, Quat, Shown, Single, SpacecraftState,
};
use cfs_telemetry::msg::{rust_app, to_lab, MsgId, MsgIds};
use cfs_telemetry::standin::{
    self, build_vehicle_packet, choose_destination, handle_command, reschedule, Incoming, Standin,
};
use cfs_telemetry::vehicle::{Command, Sequencer, Step, DEPLOY_TICKS};

fn single(v: f32) -> Single {
    Single(v.to_bits())
}

fn state(solar: f32) -> SpacecraftState {
    SpacecraftState {
        attitude: Quat::identity(),
        solar_array_deg: single(solar),
        deploy_progress: single(0.25),
        wheel_rpm: [single(1000.0), single(-1000.0), single(5.5), single(0.0)],
        mode: Mode::Nominal,
    }
}

/// The stream's time after `ms` milliseconds.
fn stamp(ms: u64) -> TlmSecondaryHeader {
    TlmSecondaryHeader {
        seconds: 1000 + (ms / 1000) as u32,
        subseconds: ((ms % 1000) * 65536 / 1000) as u16,
    }
}

fn housekeeping(id: MsgId, seq: u16, payload: &[u8]) -> Vec<u8> {
    let total = 16 + payload.len();
    let mut pkt = vec![0u8; total];
    PrimaryHeader::for_total_len(id.apid(), PacketType::Telemetry, true, seq, total)
        .unwrap()
        .write(&mut pkt[..6])
        .unwrap();
    stamp(0).write(&mut pkt[6..12]).unwrap();
    pkt[16..].copy_from_slice(payload);
    pkt
}

#[test]
fn connect_enables_output_and_receives_telemetry() {
    let mut link = Link::new(MsgIds::lab_defaults(), DEFAULT_QUEUE_DEPTH);
    let cmd = link.enable_output("127.0.0.1").unwrap();
    link.on_sent();
    let cmd = SpacePacket::parse(&cmd).unwrap();
    assert_eq!(cmd.primary().stream_id(), MsgIds::lab_defaults().to_lab_cmd.0);
    assert_eq!(cmd.cmd_secondary().unwrap().function_code, to_lab::OUTPUT_ENABLE_CC);
    assert_eq!(link.stats().commands_sent, 1);

    let mut tlm_pkt = [0u8; 20];
    let hdr = PrimaryHeader::for_total_len(0x080, PacketType::Telemetry, true, 7, 20).unwrap();
    hdr.write(&mut tlm_pkt).unwrap();
    link.on_datagram(&tlm_pkt, 12);

    let got = link.drain();
    assert_eq!(got.len(), 1);
    assert_eq!(got[0].parse().unwrap().primary().seq_count, 7);
    assert_eq!(link.stats().packets_received, 1);
    assert_eq!(link.stats().bytes_received, 20);
    assert_eq!(link.stats().last_packet_ms, 12);
}

#[test]
fn malformed_datagrams_are_counted_not_delivered() {
    let ids = MsgIds { to_lab_cmd: MsgId(0x1880), ..MsgIds::lab_defaults() };
    let mut link = Link::new(ids, DEFAULT_QUEUE_DEPTH);
    link.on_datagram(&[0xFF; 8], 1); // bogus version field
    assert_eq!(link.stats().parse_errors, 1);
    assert_eq!(link.stats().packets_received, 0);
    assert_eq!(link.drain().len(), 0);
}

#[test]
fn a_stalled_consumer_finds_the_newest_packets() {
    let mut link = Link::new(MsgIds::lab_defaults(), 3);
    for seq in 0..5u16 {
        link.on_datagram(&housekeeping(MsgId(0x0880), seq, &[0, 0]), seq as u64 + 1);
    }
    assert_eq!(link.stats().packets_dropped, 2);
    let kept: Vec<u16> =
        link.drain().iter().map(|p| p.parse().unwrap().primary().seq_count).collect();
    assert_eq!(kept, vec![2, 3, 4]);
    assert_eq!(link.drain().len(), 0);
}

#[test]
fn a_skipped_count_is_a_gap_and_a_wrap_is_not() {
    let mut link = Link::new(MsgIds::lab_defaults(), 16);
    for seq in [5u16, 6, 8, 9] {
        link.on_datagram(&housekeeping(MsgId(0x0880), seq, &[0, 0]), 1);
    }
    assert_eq!(link.stats().sequence_gaps, 1);
    for seq in [0x3FFFu16, 0, 1] {
        link.on_datagram(&housekeeping(MsgId(0x0884), seq, &[0, 0]), 1);
    }
    assert_eq!(link.stats().sequence_gaps, 1);
}

#[test]
fn subscriptions_are_sent_again_only_after_a_silence() {
    let quiet = LinkStats::default();
    assert!(subscriptions_are_silent(&quiet, 0));
    let heard = LinkStats { last_subscribed_ms: 10_000, ..LinkStats::default() };
    assert!(!subscriptions_are_silent(&heard, 14_000_000_000));
    assert!(subscriptions_are_silent(&heard, 14_000_000_001));

    let ids = MsgIds::lab_defaults();
    let healthy = keepalive(&ids, 7, "127.0.0.1", false);
    assert!(healthy.enable.is_some());
    assert!(healthy.subscriptions.is_none());
    let silent = keepalive(&ids, 7, "127.0.0.1", true);
    let (vehicle, hk) = silent.subscriptions.unwrap();
    let wanted = [(vehicle, rust_app::VEHICLE_TLM_MID, 4), (hk, rust_app::HK_TLM_MID, 1)];
    for (pkt, id, depth) in wanted {
        let parsed = SpacePacket::parse(&pkt).unwrap();
        assert_eq!(parsed.cmd_secondary().unwrap().function_code, to_lab::ADD_PKT_CC);
        let payload = parsed.payload().unwrap();
        assert_eq!(u16::from_le_bytes([payload[0], payload[1]]), id);
        assert_eq!(payload[6], depth);
    }
    assert!(keepalive(&ids, 7, "255.255.255.255!", false).enable.is_none());
}

#[test]
fn a_silent_link_ages_from_its_last_packet() {
    let none = LinkStats::default();
    assert_eq!(none.staleness(5_000_000), None);
    let some = LinkStats { last_packet_ms: 3, ..LinkStats::default() };
    assert_eq!(some.staleness(5_000_000), Some(2_000_000));
    assert_eq!(some.staleness(1_000_000), Some(0));
    assert_eq!(DEFAULT_TLM_PORT, 2234);
}

#[test]
fn generated_packets_decode() {
    let mut seq = 0;
    let pkt = build_vehicle_packet(&mut seq, stamp(45_000), &state(12.5));
    let parsed = SpacePacket::parse(&pkt).unwrap();
    let sample = decode_vehicle_state(&parsed, MsgIds::lab_defaults().rust_app_vehicle_tlm)
        .expect("vehicle packet must decode");
    assert_eq!(sample.state, state(12.5));
    assert_eq!(seq, 1);
    assert_eq!(sample.time, 1045 * 1_024_000_000);
    assert!(decode_vehicle_state(&parsed, MsgId(0x0883)).is_none());
}

#[test]
fn packets_use_the_flight_applications_message_id() {
    let mut seq = 0;
    let pkt = build_vehicle_packet(&mut seq, stamp(0), &state(0.0));
    let parsed = SpacePacket::parse(&pkt).unwrap();
    assert_eq!(parsed.primary().stream_id(), rust_app::VEHICLE_TLM_MID);
}

#[test]
fn the_stand_ins_sequence_count_stays_within_fourteen_bits() {
    let mut seq = 0x3FFF;
    let pkt = build_vehicle_packet(&mut seq, stamp(0), &state(0.0));
    assert_eq!(SpacePacket::parse(&pkt).unwrap().primary().seq_count, 0x3FFF);
    assert_eq!(seq, 0);
}

#[test]
fn enable_output_falls_back_to_sender_address() {
    let mut buf = [0u8; 64];
    // Unroutable-from-here address, as a container would send.
    let cmd =
        to_lab::enable_output(&mut buf, MsgIds::lab_defaults().to_lab_cmd, 0, "0.0.0.0").unwrap();
    match handle_command(cmd) {
        Incoming::EnableOutput(address) => assert_eq!(address, b"0.0.0.0"),
        other => panic!("not an enable-output: {other:?}"),
    }
    let from = vec![127, 0, 0, 1];
    assert_eq!(choose_destination(Some(vec![0, 0, 0, 0]), from.clone()), from);
    assert_eq!(choose_destination(None, from.clone()), from);
    assert_eq!(choose_destination(Some(vec![10, 0, 0, 2]), from), vec![10, 0, 0, 2]);
}

#[test]
fn vehicle_commands_are_recognized_and_applied() {
    let mut buf = [0u8; 64];
    let cmd = rust_app::command(
        &mut buf,
        MsgIds::lab_defaults().rust_app_cmd,
        rust_app::DEPLOY_CC,
        0,
    )
    .unwrap();
    assert!(matches!(handle_command(cmd), Incoming::Vehicle(Command::Deploy)));

    // Nine seconds of tumbling, then the automatic deployment; half a minute more.
    let step = |s: &mut Sequencer, detumbled: bool| {
        s.step_modes(Step { dt: 20_480_000, detumbled, on_target: false });
    };
    let mut vehicle = Sequencer::new();
    for i in 0..2250 {
        step(&mut vehicle, i >= 450);
    }
    vehicle.command(Command::Deploy);
    for _ in 0..500 {
        step(&mut vehicle, true);
    }
    assert!(vehicle.deployed_ticks > 0);

    // From stowed, the command alone moves the arrays.
    let mut vehicle = Sequencer::new();
    vehicle.command(Command::Nominal);
    vehicle.command(Command::Deploy);
    assert_eq!((vehicle.mode, vehicle.deployed_ticks), (Mode::Deploying, 0));
    for _ in 0..500 {
        step(&mut vehicle, true);
    }
    assert_eq!((vehicle.mode, vehicle.deployed_ticks), (Mode::Deployed, DEPLOY_TICKS));
}

#[test]
fn counters_add_up_over_a_run_of_datagrams() {
    let ids = MsgIds::lab_defaults();
    let mut link = Link::new(ids, 2);
    let run = [
        housekeeping(ids.to_lab_hk_tlm, 5, &[1, 0]),
        vec![0xFF; 3],
        housekeeping(ids.ci_lab_hk_tlm, 0, &[0; 12]),
        housekeeping(ids.to_lab_hk_tlm, 7, &[2, 0]),
        housekeeping(ids.to_lab_hk_tlm, 8, &[3, 0]),
    ];
    for (i, d) in run.iter().enumerate() {
        link.on_datagram(d, i as u64);
    }
    let stats = link.stats();
    assert_eq!((stats.packets_received, stats.parse_errors), (4, 1));
    assert_eq!(stats.bytes_received, 18 + 28 + 18 + 18);
    assert_eq!((stats.sequence_gaps, stats.packets_dropped), (1, 2));
    let left: Vec<Vec<u8>> = link.drain().into_iter().map(|r| r.bytes).collect();
    assert_eq!(left, run[3..]);
}

#[test]
fn add_packet_is_ignored_not_misread() {
    let mut buf = [0u8; 64];
    let ids = MsgIds::lab_defaults();
    let cmd = to_lab::add_packet(&mut buf, ids.to_lab_cmd, 0, ids.rust_app_vehicle_tlm, 4).unwrap();
    assert!(matches!(handle_command(cmd), Incoming::Other));
    assert!(matches!(handle_command(&[1, 2, 3]), Incoming::Other));
}

#[test]
fn a_late_wake_up_does_not_push_the_schedule() {
    assert_eq!(reschedule(9, 10, 5), None);
    assert_eq!(reschedule(12, 10, 5), Some(15));
    assert_eq!(reschedule(40, 10, 5), Some(45));
    assert_eq!(reschedule(u128::MAX, u128::MAX, 5), Some(u128::MAX));
}

/// The value of the swept quantity on display.
fn solar(shown: Shown) -> f32 {
    match shown {
        Shown::Nothing => 0.0,
        Shown::Held(s) => f32::from_bits(s.solar_array_deg.0),
        Shown::Between { before, after, elapsed, span, .. } => {
            let a = f32::from_bits(before.solar_array_deg.0);
            let b = f32::from_bits(after.solar_array_deg.0);
            a + (b - a) * (elapsed as f64 / span as f64) as f32
        }
    }
}

const FRAME_MS: u64 = 16;
const TLM_PERIOD_MS: u64 = 100;
const TICKS_PER_MS: i64 = 1_024_000;

/// A ground station fed by a stand-in, one frame at a time.
struct Harness {
    link: Link,
    ground: Ground,
    now_ms: u64,
    seq: u16,
    next_tlm: u64,
    /// Held back to be sent after the following packet, to force reordering.
    delayed: Option<Vec<u8>>,
}

impl Harness {
    fn new() -> Self {
        let ids = MsgIds::lab_defaults();
        Harness {
            link: Link::new(ids, DEFAULT_QUEUE_DEPTH),
            ground: Ground::new(
                DecodeConfig { tlm_msg_id: ids.rust_app_vehicle_tlm, msg_ids: ids },
                BufferConfig::for_rate(TLM_PERIOD_MS as i64 * TICKS_PER_MS),
            ),
            now_ms: 0,
            seq: 0,
            next_tlm: 0,
            delayed: None,
        }
    }

    fn frame(&mut self, drop_every: u16, reorder_every: u16) {
        if self.now_ms >= self.next_tlm {
            self.next_tlm += TLM_PERIOD_MS;
            let n = self.seq;
            let sweep = 60_000.0 + self.now_ms as f32 * 0.06;
            let pkt = build_vehicle_packet(&mut self.seq, stamp(self.now_ms), &state(sweep));
            let dropped = drop_every > 0 && n % drop_every == drop_every - 1;
            let reorder = reorder_every > 0 && n % reorder_every == reorder_every - 1;
            let held = self.delayed.take();
            if !dropped {
                if reorder {
                    self.delayed = Some(pkt);
                } else {
                    self.link.on_datagram(&pkt, self.now_ms + 1);
                }
            }
            if let Some(held) = held {
                self.link.on_datagram(&held, self.now_ms + 1);
            }
        }
        let batch = self.link.drain();
        let stats = self.link.stats();
        self.ground.ingest_packets(&batch, &stats);
        self.ground.advance_playback(FRAME_MS as i64 * TICKS_PER_MS);
        self.now_ms += FRAME_MS;
    }

    fn shown(&self) -> (f32, Freshness) {
        let t = self.ground.telemetry();
        (solar(t.shown), t.freshness)
    }
}

/// Largest single-frame jump over frames where playback was interpolating on both
/// sides.
fn max_live_step(samples: &[(f32, Freshness)]) -> f32 {
    samples
        .windows(2)
        .filter(|w| w[0].1.is_live() && w[1].1.is_live())
        .map(|w| (w[1].0 - w[0].0).abs())
        .fold(0.0f32, f32::max)
}

#[test]
fn clean_link_produces_smooth_motion() {
    let mut h = Harness::new();
    let mut seen = Vec::new();
    for _ in 0..200 {
        h.frame(0, 0);
        seen.push(h.shown());
    }
    assert!(h.ground.health().packets_received > 0, "no telemetry arrived");
    let live = seen.iter().filter(|(_, f)| f.is_live()).count();
    assert!(live > 100, "expected sustained Live playback, got {live} frames");

    // One frame of the sweep is 60 deg/s * 16 ms ~= 0.96 deg.
    let step = max_live_step(&seen);
    assert!(step < 2.0, "max per-frame step {step} deg suggests stepping, not interpolation");
    assert!(seen.iter().all(|(v, _)| v.is_finite()), "non-finite value in playback");

    let first_live = seen.iter().find(|(_, f)| f.is_live()).unwrap().0;
    let last_live = seen.iter().rev().find(|(_, f)| f.is_live()).unwrap().0;
    assert!(last_live > first_live + 50.0, "the array should have swept appreciably");
}

#[test]
fn lossy_reordered_link_still_animates_smoothly() {
    let mut h = Harness::new();
    let mut seen = Vec::new();
    // Drop one in 7, and deliver one in 5 out of order.
    for _ in 0..250 {
        h.frame(7, 5);
        seen.push(h.shown());
    }
    let health = h.ground.health();
    assert!(health.packets_received > 0, "no telemetry arrived");
    assert!(health.buffer.reordered > 0, "test did not actually exercise reordering");

    let live = seen.iter().filter(|(_, f)| f.is_live()).count();
    assert!(live > 100, "expected sustained Live playback, got {live} frames");

    let step = max_live_step(&seen);
    assert!(step < 2.0, "max per-frame step {step} deg under loss/reorder");
    assert!(seen.iter().all(|(v, _)| v.is_finite()));
}

#[test]
fn signal_loss_holds_then_reports_stale() {
    let mut h = Harness::new();
    for _ in 0..80 {
        h.frame(0, 0);
    }
    let before = h.shown();
    assert!(before.1.is_live());

    // Stop transmitting by pushing the schedule out of reach.
    h.next_tlm = u64::MAX;
    for _ in 0..120 {
        h.frame(0, 0);
    }
    let after = h.shown();
    assert!(matches!(after.1, Freshness::Stale { .. }), "got {:?}", after.1);
    assert!(
        (after.0 - before.0).abs() < 30.0,
        "held value drifted: playback extrapolated instead of holding"
    );
}

#[test]
fn absent_link_does_not_break_the_app() {
    let ids = MsgIds::lab_defaults();
    let mut ground = Ground::new(
        DecodeConfig { tlm_msg_id: ids.rust_app_vehicle_tlm, msg_ids: ids },
        BufferConfig::default(),
    );
    for _ in 0..10 {
        ground.advance_playback(16 * TICKS_PER_MS);
    }
    assert_eq!(ground.telemetry().freshness, Freshness::NoData);
    assert_eq!(ground.housekeeping(), Housekeeping::default());
}

#[test]
fn housekeeping_is_recognized_and_the_rest_is_counted() {
    let ids = MsgIds::lab_defaults();
    let mut link = Link::new(ids, 16);
    link.on_datagram(&housekeeping(ids.sample_app_hk_tlm, 0, &[4, 1]), 1);
    link.on_datagram(&housekeeping(ids.to_lab_hk_tlm, 0, &[7, 0]), 1);
    link.on_datagram(&housekeeping(ids.ci_lab_hk_tlm, 0, &[1, 2, 0, 1, 9, 0, 0, 0, 3, 0, 0, 0]), 1);
    link.on_datagram(&housekeeping(ids.rust_app_hk_tlm, 0, &[5, 0, 1, 0, 8, 0, 0, 0, 2, 0, 0, 0]), 1);
    link.on_datagram(&housekeeping(MsgId(0x0801), 0, &[0; 8]), 1);
    link.on_datagram(&housekeeping(ids.rust_app_vehicle_tlm, 0, &[0; 3]), 1);
    let mut ground = Ground::new(
        DecodeConfig { tlm_msg_id: ids.rust_app_vehicle_tlm, msg_ids: ids },
        BufferConfig::default(),
    );
    let batch = link.drain();
    ground.ingest_packets(&batch, &link.stats());
    let hk = ground.housekeeping();
    assert_eq!(hk.sample_app.unwrap().command_counter, 4);
    assert_eq!(hk.to_lab.unwrap().command_counter, 7);
    assert_eq!(hk.ci_lab.unwrap().ingest_packets, 9);
    assert_eq!(hk.ci_lab.unwrap().ingest_errors, 3);
    assert_eq!(hk.rust_app.unwrap().control_cycles, 8);
    assert_eq!(ground.health().packets_received, 6);
    assert_eq!(ground.health().packets_ignored, 1);
    assert_eq!(ground.health().decode_failures, 1);
    assert_eq!(ground.telemetry().freshness, Freshness::NoData);
}

#[test]
fn an_application_is_heard_only_on_its_own_message() {
    let ids = MsgIds::lab_defaults();
    let mut link = Link::new(ids, 16);
    link.on_datagram(&housekeeping(ids.sample_app_hk_tlm, 0, &[4, 1]), 1);
    link.on_datagram(&housekeeping(MsgId(0x0801), 0, &[5, 0, 1, 0, 8, 0, 0, 0, 2, 0, 0, 0]), 1);
    let mut ground = Ground::new(
        DecodeConfig { tlm_msg_id: ids.rust_app_vehicle_tlm, msg_ids: ids },
        BufferConfig::default(),
    );
    let batch = link.drain();
    ground.ingest_packets(&batch, &link.stats());
    let hk = ground.housekeeping();
    assert!(hk.sample_app.is_some());
    assert!(hk.to_lab.is_none() && hk.ci_lab.is_none() && hk.rust_app.is_none());
}

#[test]
fn the_stand_in_withholds_telemetry_until_output_is_enabled() {
    let ids = MsgIds::lab_defaults();
    let mut s = Standin::new();
    let here = vec![10, 0, 0, 7];
    assert!(s.destination().is_none());
    assert!(s.tick(0, 100, stamp(0), &state(1.0)).is_none());

    // A vehicle command is flown and enables nothing.
    let deploy = build_packet(CfsCommand::RustApp(rust_app::DEPLOY_CC), &ids, 0);
    let heard = handle_command(&deploy);
    assert_eq!(s.on_command(&heard, None, here.clone()), Some(Command::Deploy));
    assert!(s.tick(100, 100, stamp(0), &state(1.0)).is_none());

    let mut buf = [0u8; 64];
    let enable = handle_command(to_lab::enable_output(&mut buf, ids.to_lab_cmd, 0, "10.0.0.9").unwrap());
    assert_eq!(s.on_command(&enable, Some(vec![10, 0, 0, 9]), here.clone()), None);
    assert_eq!(s.destination(), Some(&vec![10, 0, 0, 9]));
    // Not due yet, then due with the first sequence count.
    assert!(s.tick(199, 100, stamp(0), &state(1.0)).is_none());
    let (to, pkt) = s.tick(200, 100, stamp(0), &state(1.0)).unwrap();
    assert_eq!(to, vec![10, 0, 0, 9]);
    let mut seq = 0u16;
    assert_eq!(pkt, build_vehicle_packet(&mut seq, stamp(0), &state(1.0)));

    // The latest enable-output counts; an unusable address falls back to the sender.
    assert_eq!(s.on_command(&enable, Some(vec![0, 0, 0, 0]), here.clone()), None);
    let (to, pkt) = s.tick(300, 100, stamp(0), &state(2.0)).unwrap();
    assert_eq!(to, here);
    assert_eq!(pkt, build_vehicle_packet(&mut seq, stamp(0), &state(2.0)));
    assert_eq!(seq, 2);
}

#[test]
fn a_stamp_counts_subseconds_in_whole_steps() {
    let half = standin::stamp(1_700_000_000, 500_000_000);
    assert_eq!((half.seconds, half.subseconds), (1_700_000_000, 0x8000));
    let last = standin::stamp(0x1_0000_0007, 999_999_999);
    assert_eq!((last.seconds, last.subseconds), (7, 0xFFFF));
    assert_eq!(standin::stamp(3, 15_258).subseconds, 0);
    assert_eq!(standin::stamp(3, 15_259).subseconds, 1);
}

#[test]
fn a_keyed_command_becomes_its_packet() {
    let ids = MsgIds::lab_defaults();
    assert_eq!(
        build_packet(CfsCommand::SampleAppNoop, &ids, 1),
        vec![0x18, 0x82, 0xC0, 0x01, 0x00, 0x01, 0x00, 0xA5]
    );
    let reset = build_packet(CfsCommand::SampleAppResetCounters, &ids, 1);
    assert_eq!(SpacePacket::parse(&reset).unwrap().cmd_secondary().unwrap().function_code, 1);
    let slew = build_packet(CfsCommand::RustApp(rust_app::NEXT_TARGET_CC), &ids, 1);
    let parsed = SpacePacket::parse(&slew).unwrap();
    assert_eq!(parsed.primary().stream_id(), rust_app::CMD_MID);
    assert_eq!(parsed.cmd_secondary().unwrap().function_code, rust_app::NEXT_TARGET_CC);
}

#[test]
fn a_capture_is_summed_up_by_message() {
    let mut data = Vec::new();
    for (id, seq) in [(0x0884u16, 0u16), (0x0880, 0), (0x0884, 1)] {
        push_frame(&mut data, &housekeeping(MsgId(id), seq, &[0, 0]));
    }
    let (frames, cut) = split_frames(&data);
    assert_eq!(cut, None);
    let mut summary = Summary::new();
    for f in &frames {
        summary.note(&SpacePacket::parse(f).unwrap());
    }
    let rows: Vec<(u16, u64, usize)> =
        summary.entries().iter().map(|s| (s.stream_id, s.count, s.len)).collect();
    assert_eq!(rows, vec![(0x0880, 1, 18), (0x0884, 2, 18)]);
    assert_eq!(summary.entries()[1].line(), "  0x0884       2 packets     18 octets");
}
