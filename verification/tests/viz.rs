use cfs_telemetry::anim::{lamp, mode_clips, mode_index, mode_pose, MODE_COUNT};
use cfs_telemetry::ground::{CfsCommand, Housekeeping, LinkHealth, Telemetry};
use cfs_telemetry::model::{Freshness, Mode, Quat, Shown, Single, SpacecraftState, MEAN_PARTS};
use cfs_telemetry::msg::hk::{CiLabHk, SampleAppHk};
use cfs_telemetry::msg::rust_app;
use cfs_telemetry::msg::rust_app::RustAppHk;
use cfs_telemetry::viz::args::{parse_args, Measure, Parsed};
use cfs_telemetry::viz::command_loop::{
    auto_noop, report_round_trips, CommandLoop, Outcome, TIMEOUT,
};
use cfs_telemetry::viz::keys::{command_keys, vehicle_keys};
use cfs_telemetry::viz::panel::{freshness_line, playback_line, render, PanelData};
use cfs_telemetry::viz::recording::{frame_name, notice, Recording, Shot};
use cfs_telemetry::viz::rig::{role_of, Joints, RigCheck, RigStatus, Role};
use cfs_telemetry::viz::sources::{
    resolve, shown_freshness, Baseline, Pipeline, Resolved, Source, Sources,
};

/// Seconds in ticks.
fn ticks(seconds: f64) -> u64 {
    (seconds * 1_024_000_000.0).round() as u64
}

fn hk(command_counter: u8) -> Option<SampleAppHk> {
    Some(SampleAppHk { command_counter, command_error_counter: 0 })
}

#[test]
fn a_counter_change_confirms_and_times_the_round_trip() {
    let mut l = CommandLoop::default();
    l.on_sent(hk(3), ticks(10.0));
    // Housekeeping still carrying the old value: not confirmation.
    l.observe(hk(3), ticks(11.0));
    assert!(l.awaiting());
    assert_eq!(l.confirmed, 0);

    l.observe(hk(4), ticks(13.5));
    assert!(!l.awaiting());
    assert_eq!(l.last, Some(Outcome::Confirmed { ticks: ticks(3.5) as i128 }));
    assert_eq!(l.confirmed, 1);
}

#[test]
fn a_clock_set_back_gives_a_negative_round_trip() {
    let mut l = CommandLoop::default();
    l.on_sent(hk(3), ticks(10.0));
    // Not lost, however long ago the look is.
    l.observe(hk(3), ticks(1.0));
    assert!(l.awaiting());
    l.observe(hk(4), ticks(8.75));
    assert_eq!(l.last, Some(Outcome::Confirmed { ticks: -(ticks(1.25) as i128) }));
    assert!(l.summary().ends_with("confirmed in -1.25s"), "{}", l.summary());
    let mut seen = 0;
    assert_eq!(
        report_round_trips(&l, &mut seen).unwrap(),
        "command loop closed: SAMPLE_APP CommandCounter changed -1.25s after send"
    );
}

#[test]
fn silence_eventually_reports_the_command_lost() {
    let mut l = CommandLoop::default();
    l.on_sent(hk(0), 0);
    l.observe(hk(0), TIMEOUT - ticks(0.1));
    assert!(l.awaiting(), "gave up before the timeout");
    l.observe(hk(0), TIMEOUT + ticks(0.1));
    assert_eq!(l.last, Some(Outcome::TimedOut));
    assert_eq!(l.timed_out, 1);
}

/// The counter is a `u8`. A scheme that predicted "before + 1" would work for 255
/// commands and then quietly stop confirming.
#[test]
fn confirmation_survives_the_counter_wrapping() {
    let mut l = CommandLoop::default();
    l.on_sent(hk(255), ticks(1.0));
    l.observe(hk(0), ticks(2.0));
    assert_eq!(l.confirmed, 1);
}

/// A reset command drives the counter *down*. That is still a change caused by our
/// command, and must confirm.
#[test]
fn a_counter_that_drops_still_confirms() {
    let mut l = CommandLoop::default();
    l.on_sent(hk(9), 0);
    l.observe(hk(0), ticks(1.0));
    assert_eq!(l.confirmed, 1);
}

#[test]
fn a_second_press_sends_but_does_not_start_a_second_measurement() {
    let mut l = CommandLoop::default();
    l.on_sent(hk(1), 0);
    l.on_sent(hk(1), ticks(0.5));
    assert_eq!(l.sent, 2);
    l.observe(hk(2), ticks(1.0));
    // Timed from the first press, not the second.
    assert_eq!(l.last, Some(Outcome::Confirmed { ticks: ticks(1.0) as i128 }));
    assert_eq!(l.confirmed, 1);
}

/// Commanding before any housekeeping has arrived must not fabricate a baseline of
/// zero, which would confirm on the first real packet.
#[test]
fn commanding_before_the_first_housekeeping_measures_nothing() {
    let mut l = CommandLoop::default();
    l.on_sent(None, 0);
    assert_eq!(l.sent, 1);
    assert!(!l.awaiting());
    l.observe(hk(7), ticks(1.0));
    assert_eq!(l.confirmed, 0);
    assert_eq!(l.last, None);
}

#[test]
fn the_loop_sums_itself_up_in_a_line() {
    let mut l = CommandLoop::default();
    assert_eq!(l.summary(), "sent 0  confirmed 0  lost 0  |  no command sent yet");
    l.on_sent(hk(1), 0);
    assert_eq!(l.summary(), "sent 1  confirmed 0  lost 0  |  awaiting counter change...");
    l.observe(hk(2), ticks(2.94));
    assert_eq!(l.summary(), "sent 1  confirmed 1  lost 0  |  confirmed in 2.94s");
    l.on_sent(hk(2), ticks(3.0));
    l.observe(hk(2), ticks(18.1));
    assert_eq!(
        l.summary(),
        "sent 2  confirmed 1  lost 1  |  TIMED OUT after 15s - command never reached sample_app"
    );
}

#[test]
fn round_trips_are_reported_once_each() {
    let mut l = CommandLoop::default();
    let mut seen = 0;
    assert_eq!(report_round_trips(&l, &mut seen), None);
    l.on_sent(hk(1), 0);
    l.observe(hk(2), ticks(0.9));
    assert_eq!(
        report_round_trips(&l, &mut seen).unwrap(),
        "command loop closed: SAMPLE_APP CommandCounter changed 0.90s after send"
    );
    assert_eq!(report_round_trips(&l, &mut seen), None);
    l.on_sent(hk(2), ticks(1.0));
    l.observe(hk(2), ticks(20.0));
    assert_eq!(
        report_round_trips(&l, &mut seen).unwrap(),
        "command loop TIMED OUT: no counter change within 15s"
    );
}

#[test]
fn the_timed_no_op_waits_for_housekeeping() {
    let mut l = CommandLoop::default();
    let mut next = 0;
    assert!(!auto_noop(&mut next, ticks(4.0), 0, None, &mut l));
    assert_eq!(next, ticks(4.0));
    assert_eq!(l.sent, 0);
    assert!(!auto_noop(&mut next, ticks(4.0), ticks(3.9), hk(0), &mut l));
    assert!(auto_noop(&mut next, ticks(4.0), ticks(4.0), hk(0), &mut l));
    assert_eq!(next, ticks(8.0));
    assert_eq!(l.sent, 1);
    assert!(auto_noop(&mut next, 0, ticks(8.0), hk(0), &mut l));
    assert_eq!(next, ticks(8.1));
}

#[test]
fn keys_send_their_commands_in_order() {
    let station = Housekeeping { sample_app: hk(0), ..Housekeeping::default() };
    let mut l = CommandLoop::default();
    let sent = command_keys(&vec!['D', 'R', 'T', 'N', 'x'], &station, 5, &mut l);
    assert_eq!(
        sent,
        vec![
            CfsCommand::SampleAppNoop,
            CfsCommand::SampleAppResetCounters,
            CfsCommand::RustApp(rust_app::NEXT_TARGET_CC),
            CfsCommand::RustApp(rust_app::DEPLOY_CC),
        ]
    );
    assert_eq!(l.sent, 2);
    assert!(l.awaiting());
    let mut idle = CommandLoop::default();
    assert_eq!(
        command_keys(&vec!['M'], &station, 5, &mut idle),
        vec![CfsCommand::RustApp(rust_app::DUMP_MOMENTUM_CC)]
    );
    assert_eq!(idle, CommandLoop::default());
    assert_eq!(vehicle_keys()[4], ('F', rust_app::SAFE_CC, "[F] safe mode"));
}

fn hk_with(command_counter: u8, ingest: u32, time: f64) -> Housekeeping {
    Housekeeping {
        sample_app: Some(SampleAppHk { command_counter, command_error_counter: 0 }),
        to_lab: None,
        ci_lab: Some(CiLabHk { ingest_packets: ingest, ..CiLabHk::default() }),
        rust_app: None,
        last_time: Some(ticks(time) as i64),
    }
}

fn no_vehicle_packet() -> Telemetry {
    Telemetry { shown: Shown::Nothing, freshness: Freshness::NoData }
}

fn live_state() -> SpacecraftState {
    SpacecraftState {
        attitude: Quat::identity(),
        solar_array_deg: Single(42.0f32.to_bits()),
        deploy_progress: Single(0),
        wheel_rpm: [Single(0); 4],
        mode: Mode::Safe,
    }
}

fn live_vehicle_packet() -> Telemetry {
    Telemetry { shown: Shown::Held(live_state()), freshness: Freshness::Live }
}

/// Mode, deployment from 0 to 1, and array angle in degrees.
fn derived(r: Resolved) -> (Mode, f64, f64) {
    match r {
        Resolved::Derived { mode, deploy, array } => {
            (mode, deploy as f64 / 10.0, array as f64 / 1_024_000_000.0)
        }
        other => panic!("not derived: {other:?}"),
    }
}

#[test]
fn nothing_on_the_bus_means_nothing_claimed() {
    let (state, sources, pipeline) =
        resolve(&no_vehicle_packet(), &Housekeeping::default(), &mut Baseline::default());
    assert_eq!(pipeline, Pipeline::Waiting);
    assert_eq!(state, Resolved::Unknown);
    assert!(sources.rows().iter().all(|(_, s, _)| *s == Source::Missing));
}

/// The behaviour against a cFS without the flight application loaded.
#[test]
fn stock_cfs_supplies_no_attitude_and_no_wheels() {
    let (state, sources, pipeline) =
        resolve(&no_vehicle_packet(), &hk_with(1, 50, 1000.0), &mut Baseline::default());
    assert_eq!(pipeline, Pipeline::Derived);
    assert_eq!(sources.attitude, Source::Missing);
    assert_eq!(sources.wheels, Source::Missing);
    assert!(matches!(state, Resolved::Derived { .. }));
}

/// Connecting to a cFS that has been up for hours must not show a vehicle
/// mid-deployment.
#[test]
fn counters_are_relative_to_the_moment_we_connected() {
    let mut baseline = Baseline::default();
    let (first, _, _) = resolve(&no_vehicle_packet(), &hk_with(0, 9_000, 1000.0), &mut baseline);
    assert_eq!(derived(first).1, 0.0, "a long-running cFS started us mid-deploy");
    assert_eq!(derived(first).2, 0.0);

    let (later, _, _) = resolve(&no_vehicle_packet(), &hk_with(0, 9_005, 1010.0), &mut baseline);
    assert!((derived(later).1 - 0.5).abs() < 1e-6);
    assert!((derived(later).2 - 60.0).abs() < 1e-3);
}

#[test]
fn array_angle_survives_a_realistic_mission_time() {
    let mut baseline = Baseline::default();
    let epoch = 1_456_000_000.0f64;
    resolve(&no_vehicle_packet(), &hk_with(0, 0, epoch), &mut baseline);
    let (state, _, _) = resolve(&no_vehicle_packet(), &hk_with(0, 0, epoch + 1.5), &mut baseline);
    assert!((derived(state).2 - 9.0).abs() < 1e-3, "got {}", derived(state).2);
}

#[test]
fn the_array_angle_stays_within_one_turn_either_way() {
    let mut baseline = Baseline::default();
    resolve(&no_vehicle_packet(), &hk_with(0, 0, 1000.0), &mut baseline);
    let (ahead, _, _) = resolve(&no_vehicle_packet(), &hk_with(0, 20, 1061.0), &mut baseline);
    assert_eq!(derived(ahead), (Mode::Safe, 1.0, 6.0));
    let (behind, _, _) = resolve(&no_vehicle_packet(), &hk_with(0, 0, 999.0), &mut baseline);
    assert_eq!(derived(behind), (Mode::Safe, 0.0, 354.0));
}

#[test]
fn each_no_op_steps_the_mode_and_wraps() {
    let seen: Vec<Mode> = (0u8..5)
        .map(|c| {
            derived(
                resolve(&no_vehicle_packet(), &hk_with(c, 0, 0.0), &mut Baseline::default()).0,
            )
            .0
        })
        .collect();
    assert_eq!(seen, [Mode::Safe, Mode::Nominal, Mode::Deploying, Mode::Deployed, Mode::Safe]);
}

#[test]
fn a_vehicle_payload_outranks_derivation() {
    let (state, sources, pipeline) =
        resolve(&live_vehicle_packet(), &hk_with(3, 99, 1000.0), &mut Baseline::default());
    assert_eq!(pipeline, Pipeline::Standin);
    match state {
        Resolved::Vehicle(Shown::Held(s)) => {
            assert_eq!(f32::from_bits(s.solar_array_deg.0), 42.0)
        }
        other => panic!("not the vehicle: {other:?}"),
    }
    assert_eq!(sources.attitude, Source::Standin);
}

/// The claim that software running inside cFE computed this must rest on evidence
/// the vehicle packet cannot manufacture.
#[test]
fn the_flight_claim_needs_the_flight_apps_own_housekeeping() {
    let mut hk = hk_with(0, 0, 1000.0);
    let (_, standin, pipeline) = resolve(&live_vehicle_packet(), &hk, &mut Baseline::default());
    assert_eq!(pipeline, Pipeline::Standin, "an identical packet claimed to be from flight");
    assert_eq!(standin.attitude, Source::Standin);

    hk.rust_app = Some(RustAppHk::default());
    let (_, flight, pipeline) = resolve(&live_vehicle_packet(), &hk, &mut Baseline::default());
    assert_eq!(pipeline, Pipeline::Flight);
    assert!(matches!(flight.attitude, Source::Flight(_)));
    assert!(
        flight.rows().iter().all(|(_, s, _)| matches!(s, Source::Flight(_))),
        "a signal was left unsourced with the flight app publishing"
    );
}

#[test]
fn derived_signals_are_not_shown_as_a_dead_link() {
    assert_eq!(shown_freshness(Pipeline::Derived, Freshness::NoData), Freshness::Live);
    assert_eq!(shown_freshness(Pipeline::Offline, Freshness::NoData), Freshness::Live);
    let stale = Freshness::Stale { age: 7 };
    assert_eq!(shown_freshness(Pipeline::Flight, stale), stale);
    assert_eq!(shown_freshness(Pipeline::Waiting, Freshness::NoData), Freshness::NoData);
}

#[test]
fn every_source_and_pipeline_has_its_words() {
    assert_eq!(Sources::offline().mode.label(), "synthetic (--offline)");
    assert_eq!(Sources::standin().mode.label(), "fake-cfs vehicle-state payload");
    assert_eq!(Sources::flight().mode.label(), "RUST_APP.mode");
    assert_eq!(Sources::none().mode.label(), "-- no source --");
    assert_eq!(Pipeline::Waiting.label(), "WAITING - no telemetry yet");
    assert_eq!(Pipeline::Flight.label(), "LIVE - vehicle state from RUST_APP, inside cFE");
    assert_eq!(Pipeline::Standin.label(), "LIVE - vehicle state from fake-cfs");
    assert_eq!(Pipeline::Derived.label(), "LIVE - derived from cFE housekeeping");
    assert_eq!(Pipeline::Offline.label(), "OFFLINE - no socket, synthetic state");
}

fn data<'a>(
    freshness: Freshness,
    hk: &'a Housekeeping,
    health: &'a LinkHealth,
    commands: &'a CommandLoop,
) -> PanelData<'a> {
    PanelData {
        endpoint: "127.0.0.1:1234 -> :2234",
        pipeline: Pipeline::Derived,
        sources: Sources {
            attitude: Source::Missing,
            solar_array: Source::Derived("CFE mission time"),
            deploy: Source::Derived("CI_LAB.IngestPackets since connect"),
            mode: Source::Derived("SAMPLE_APP.CommandCounter % 4"),
            wheels: Source::Missing,
        },
        mode: Mode::Safe,
        array_deg: "0.0",
        deploy_progress: "0.000",
        freshness,
        health,
        hk,
        commands,
        drawn_hinge_deg: Some("-150.00"),
        rig_error: None,
    }
}

#[test]
fn derived_playback_does_not_claim_interpolation() {
    let line = playback_line(Pipeline::Derived, Freshness::Live);
    assert!(line.contains("derived"), "{line}");
    assert!(!line.contains("interpolating"), "{line}");
    assert!(playback_line(Pipeline::Standin, Freshness::Live).contains("interpolating"));
}

#[test]
fn offline_playback_does_not_claim_interpolation() {
    let line = playback_line(Pipeline::Offline, Freshness::Live);
    assert!(!line.contains("interpolating"), "{line}");
    assert!(playback_line(Pipeline::Flight, Freshness::Live).contains("interpolating"));
    assert_eq!(
        playback_line(Pipeline::Waiting, Freshness::Live),
        "NO DATA - nothing decoded yet"
    );
}

#[test]
fn stale_and_holding_do_not_read_like_live() {
    assert!(freshness_line(Freshness::Live).contains("LIVE"));

    let holding = freshness_line(Freshness::Holding { age: ticks(3.25) });
    assert!(holding.contains("3.2"), "{holding}");
    assert!(holding.contains("not extrapolated"), "{holding}");

    let stale = freshness_line(Freshness::Stale { age: ticks(30.0) });
    assert!(stale.contains("STALE"));
    assert!(!stale.contains("LIVE"));
}

#[test]
fn a_missing_signal_is_named_on_screen() {
    let (hk, health, cmds) =
        (Housekeeping::default(), LinkHealth::default(), CommandLoop::default());
    let text = render(&data(Freshness::NoData, &hk, &health, &cmds));
    assert!(text.contains("attitude"));
    assert!(text.contains("-- no source --"), "{text}");
    assert!(text.contains("SAMPLE_APP.CommandCounter % 4"));
}

#[test]
fn an_unheard_application_prints_dashes_not_zeroes() {
    let (health, cmds) = (LinkHealth::default(), CommandLoop::default());
    let hk = Housekeeping::default();
    let text = render(&data(Freshness::NoData, &hk, &health, &cmds));
    assert!(text.contains("SAMPLE_APP  --"), "{text}");

    let hk = Housekeeping {
        sample_app: Some(SampleAppHk { command_counter: 0, command_error_counter: 0 }),
        ci_lab: Some(CiLabHk { socket_connected: 1, ..CiLabHk::default() }),
        ..Housekeeping::default()
    };
    let text = render(&data(Freshness::Live, &hk, &health, &cmds));
    assert!(text.contains("SAMPLE_APP  cmd   0"), "{text}");
}

#[test]
fn a_broken_rig_leads_the_panel() {
    let (hk, health, cmds) =
        (Housekeeping::default(), LinkHealth::default(), CommandLoop::default());
    let mut d = data(Freshness::Live, &hk, &health, &cmds);
    d.rig_error = Some("RIG UNBOUND: Antenna (expected 1, bound 0)");
    let text = render(&d);
    assert!(text.starts_with("!! RIG UNBOUND"), "{text}");
}

#[test]
fn every_signal_shows_the_mechanism_driving_it() {
    let (hk, health, cmds) =
        (Housekeeping::default(), LinkHealth::default(), CommandLoop::default());
    let text = render(&data(Freshness::Live, &hk, &health, &cmds));
    for mechanism in ["direct transform", "clip seek", "graph blend", "material emissive"] {
        assert!(text.contains(mechanism), "{mechanism} missing from panel:\n{text}");
    }
}

#[test]
fn the_whole_panel_reads_as_laid_out() {
    let hk = Housekeeping {
        rust_app: Some(RustAppHk {
            command_counter: 12,
            command_error_counter: 0,
            mode: 1,
            wheels_saturated: 0,
            control_cycles: 500,
            targets_commanded: 3,
        }),
        ..hk_with(7, 50, 1000.5)
    };
    let health = LinkHealth {
        packets_received: 9,
        mean_interval: Some(ticks(0.1) as u128 * MEAN_PARTS),
        ..LinkHealth::default()
    };
    let text = render(&data(Freshness::Live, &hk, &health, &CommandLoop::default()));
    let wanted = "LINK   127.0.0.1:1234 -> :2234\n  \
        rx 9  dropped 0  parse err 0  seq gaps 0\n  \
        ignored 0  decode fail 0  cmds sent 0\n  \
        vehicle-state stream: rate 10.0 Hz  buffered 0  inserted 0  reordered 0  resyncs 0\n  \
        LIVE (derived) - housekeeping steps at the scheduler rate, not interpolated\n\n\
        FLIGHT SOFTWARE  (real cFE housekeeping)\n  \
        SAMPLE_APP  cmd   7  err   0\n  \
        TO_LAB      --\n  \
        CI_LAB      cmd   0  err   0  ingest 50/0  socket 0  cksum off\n  \
        RUST_APP    cmd  12  err   0  cycles 500  targets 3\n  \
        mission time 1000.50s since 1980-01-01\n\n\
        VEHICLE  LIVE - derived from cFE housekeeping\n  \
        attitude     -- no source --                    -> direct transform\n  \
        solar array  CFE mission time                   -> direct transform\n  \
        deploy       CI_LAB.IngestPackets since connect -> clip seek\n  \
        mode         SAMPLE_APP.CommandCounter % 4      -> graph blend\n  \
        wheels       -- no source --                    -> material emissive\n  \
        array    0.0deg   deploy 0.000   mode Safe\n  \
        inner hinge as drawn -150.00deg\n\n\
        COMMAND  (real packets to ci_lab)\n  \
        [N] SAMPLE_APP NOOP      [R] SAMPLE_APP RESET_COUNTERS\n  \
        [T] slew to next target\n  \
        [H] inertial hold\n  \
        [D] deploy arrays\n  \
        [S] stow arrays\n  \
        [F] safe mode\n  \
        [M] dump momentum\n  \
        sent 0  confirmed 0  lost 0  |  no command sent yet\n";
    assert_eq!(text, wanted);
}

#[test]
fn a_bus_without_the_flight_application_says_so() {
    let (hk, health, cmds) =
        (Housekeeping::default(), LinkHealth::default(), CommandLoop::default());
    let text = render(&data(Freshness::NoData, &hk, &health, &cmds));
    assert!(text.contains("RUST_APP -- (not loaded: no vehicle dynamics on this bus)"), "{text}");
    assert!(text.contains("rate -- Hz"), "{text}");
    assert!(text.contains("mission time --\n"), "{text}");
}

#[test]
fn every_mode_has_a_distinct_pose() {
    let modes = [Mode::Safe, Mode::Nominal, Mode::Deploying, Mode::Deployed];
    assert_eq!(modes.len(), MODE_COUNT);
    let poses: Vec<(i32, u32)> = modes.iter().map(|m| mode_pose(*m)).collect();
    for (i, a) in poses.iter().enumerate() {
        for b in poses.iter().skip(i + 1) {
            assert_ne!(a.0, b.0, "two modes share an antenna angle: {a:?} {b:?}");
        }
    }
    assert_eq!(poses, vec![(-70, 18), (0, 10), (-20, 14), (15, 10)]);
    assert_eq!(mode_clips()[mode_index(Mode::Deploying)], "ModeDeploying");
}

#[test]
fn stale_link_overrides_vehicle_mode_on_the_lamp() {
    let nominal = lamp(Mode::Nominal, Freshness::Live, 0);
    assert!(nominal.visible && nominal.emissive_percent < 20);
    let stale = lamp(Mode::Nominal, Freshness::Stale { age: ticks(9.0) }, 0);
    assert_ne!(stale, nominal, "stale link presented identically to a live one");
    // And it must actually blink rather than sit on.
    assert!(!lamp(Mode::Nominal, Freshness::Stale { age: ticks(9.0) }, ticks(0.75)).visible);
}

#[test]
fn a_safe_vehicle_blinks_twice_a_second() {
    let lit: Vec<bool> =
        (0..4).map(|i| lamp(Mode::Safe, Freshness::Live, i * ticks(0.25)).visible).collect();
    assert_eq!(lit, [true, false, true, false]);
    assert_eq!(lamp(Mode::Deploying, Freshness::Live, 0).emissive_percent, 70);
}

const COMPLETE: Joints =
    Joints { roots: 1, yokes: 2, inner: 2, outer: 2, antenna: 1, lamp_joint: 1, lamp_geo: 1 };

#[test]
fn a_complete_rig_is_bound_after_it_settles() {
    let mut check = RigCheck::new();
    check.check(false, &COMPLETE);
    assert_eq!(check.settled, 0);
    for _ in 0..29 {
        check.check(true, &COMPLETE);
        assert!(matches!(check.status, RigStatus::Loading));
    }
    check.check(true, &COMPLETE);
    assert!(matches!(check.status, RigStatus::Bound));
    assert_eq!(check.status.message(), None);
}

#[test]
fn a_missing_wing_is_named_with_its_counts() {
    let mut check = RigCheck::new();
    let broken = Joints { yokes: 1, antenna: 0, ..COMPLETE };
    for _ in 0..30 {
        check.check(true, &broken);
    }
    assert_eq!(
        check.status.message().unwrap(),
        "RIG UNBOUND: Yoke.{L,R} (expected 2, bound 1), Antenna (expected 1, bound 0) \
         - regenerate with `cargo run -p gltf-gen`"
    );
    // A verdict stands.
    check.check(true, &COMPLETE);
    assert!(matches!(check.status, RigStatus::Broken(_)));
}

#[test]
fn nodes_are_told_apart_by_name() {
    assert_eq!(role_of("Yoke.L"), Some(Role::Yoke));
    assert_eq!(role_of("Panel.R.1"), Some(Role::PanelInner));
    assert_eq!(role_of("Panel.R.2"), Some(Role::PanelOuter));
    assert_eq!(role_of("PanelGeo.R.2"), None);
    assert_eq!(role_of("Antenna"), Some(Role::AntennaJoint));
    assert_eq!(role_of("AntennaDish"), None);
    assert_eq!(role_of("Indicator"), Some(Role::LampJoint));
    assert_eq!(role_of("IndicatorLamp"), Some(Role::LampGeo));
    assert_eq!(role_of("SpacecraftRoot"), Some(Role::VehicleRoot));
    assert_eq!(role_of(""), None);
}

fn words(args: &[&str]) -> Vec<String> {
    args.iter().map(|a| a.to_string()).collect()
}

#[test]
fn the_command_line_overrides_the_defaults() {
    let args = match parse_args(&words(&[])) {
        Parsed::Run(a) => a,
        other => panic!("{other:?}"),
    };
    assert_eq!(args.command_address(), "127.0.0.1:1234");
    assert!(!args.capturing());
    assert_eq!(args.endpoint(), "cmd 127.0.0.1:1234  tlm :2234  (to_lab -> 127.0.0.1)");

    let line = ["--cfs-host", "10.0.0.9", "--cmd-port", "+99", "--tlm-port", "no", "--dest-ip",
        "h", "--screenshot", "a.png", "--at", "6.0", "--cfs-host", "cfs", "--frames"];
    let args = match parse_args(&words(&line)) {
        Parsed::Run(a) => a,
        other => panic!("{other:?}"),
    };
    assert_eq!(args.endpoint(), "cmd cfs:99  tlm :2234  (to_lab -> h)");
    assert_eq!(args.screenshot, Some("a.png".to_string()));
    assert_eq!(args.frames, None);
    assert_eq!(args.measures, vec![(Measure::At, Some("6.0".to_string()))]);
    assert!(args.capturing());
}

#[test]
fn an_offline_display_has_no_endpoint() {
    match parse_args(&words(&["--offline", "--fps", "20"])) {
        Parsed::Run(a) => {
            assert_eq!(a.endpoint(), "offline - no socket");
            assert_eq!(a.measures, vec![(Measure::Fps, Some("20".to_string()))]);
        }
        other => panic!("{other:?}"),
    }
}

#[test]
fn help_and_unknown_arguments_end_the_reading() {
    assert!(matches!(parse_args(&words(&["--offline", "-h", "--nope"])), Parsed::Help));
    match parse_args(&words(&["--nope", "--help"])) {
        Parsed::Unknown(a) => assert_eq!(a, "--nope"),
        other => panic!("{other:?}"),
    }
    match parse_args(&words(&["--offline", "--fps", "20", "--nope", "--help"])) {
        Parsed::Unknown(a) => assert_eq!(a, "--nope"),
        other => panic!("{other:?}"),
    }
}

#[test]
fn a_recording_takes_each_instant_once_and_then_drains() {
    let mut r = Recording::new(2, 2, 3);
    assert_eq!(r.step(false, 2), Shot::Wait);
    assert_eq!(r.step(true, 1), Shot::Wait);
    assert_eq!(r.step(true, 2), Shot::Take { frame: 0, target: Some(1) });
    assert_eq!(r.step(true, 2), Shot::Take { frame: 1, target: None });
    for _ in 0..3 {
        assert_eq!(r.step(true, 2), Shot::Wait);
    }
    assert_eq!(r.step(true, 2), Shot::Quit);
}

#[test]
fn frames_are_numbered_and_announced() {
    assert_eq!(frame_name(7), "frame_00007.png");
    assert_eq!(frame_name(123456), "frame_123456.png");
    assert_eq!(notice(0, 1, "a.png").unwrap(), "capturing a.png");
    assert_eq!(notice(20, 45, "x").unwrap(), "capturing frame 21 of 45");
    assert_eq!(notice(44, 45, "x").unwrap(), "capturing frame 45 of 45");
    assert_eq!(notice(1, 45, "x"), None);
}
