use cfs_telemetry::flight::{
    after_startup, count_cycle, cycle_step, fill_housekeeping, handle_command, receive_outcome,
    vehicle_command, Handled, Next, Received, Startup,
};
use cfs_telemetry::model::Mode;
use cfs_telemetry::msg::rust_app;
use cfs_telemetry::msg::rust_app::RustAppHk;
use cfs_telemetry::vehicle::{Aim, Command, Sequencer, Step, DEPLOY_TICKS};

const SECOND: u64 = 1_024_000_000;
const DEPLOY_DURATION_S: f64 = 6.0;

/// A vehicle whose body detumbles in nine seconds and slews in five.
struct Vehicle {
    seq: Sequencer,
    tumbling_for: u64,
    slewing_for: u64,
}

impl Vehicle {
    fn new() -> Self {
        Vehicle { seq: Sequencer::new(), tumbling_for: 9 * SECOND, slewing_for: 0 }
    }

    fn command(&mut self, cmd: Command) {
        if cmd == Command::Safe {
            self.tumbling_for = 9 * SECOND;
        }
        let effect = self.seq.command(cmd);
        if let Aim::Survey(_) = effect.aim {
            self.slewing_for = 5 * SECOND;
        }
    }

    fn step(&mut self, dt: u64) {
        self.tumbling_for = self.tumbling_for.saturating_sub(dt);
        self.slewing_for = self.slewing_for.saturating_sub(dt);
        let aim = self.seq.step_modes(Step {
            dt,
            detumbled: self.tumbling_for == 0,
            on_target: self.slewing_for == 0,
        });
        if let Aim::Survey(_) = aim {
            self.slewing_for = 5 * SECOND;
        }
    }

    fn progress(&self) -> f64 {
        self.seq.deployed_ticks as f64 / DEPLOY_TICKS as f64
    }
}

fn run(v: &mut Vehicle, seconds: f64) {
    for _ in 0..((seconds / 0.02) as usize) {
        v.step(SECOND / 50);
    }
}

fn settled() -> Vehicle {
    let mut v = Vehicle::new();
    run(&mut v, 60.0);
    assert_eq!(v.seq.mode, Mode::Deployed, "detumble and deployment did not finish in 60 s");
    v.command(Command::Hold);
    run(&mut v, 20.0);
    v
}

#[test]
fn the_arrays_deploy_themselves_once_the_tumble_is_damped() {
    let mut v = Vehicle::new();
    assert_eq!(v.progress(), 0.0);
    run(&mut v, 60.0);
    assert_eq!(v.seq.mode, Mode::Deployed);
    assert!((v.progress() - 1.0).abs() < 1e-6);
}

#[test]
fn the_automatic_deployment_does_not_fire_twice() {
    let mut v = Vehicle::new();
    run(&mut v, 60.0);
    v.command(Command::Stow);
    run(&mut v, DEPLOY_DURATION_S + 2.0);
    assert_eq!(v.progress(), 0.0);

    v.command(Command::Safe);
    run(&mut v, 60.0);
    assert_eq!(v.progress(), 0.0, "safe/nominal cycle redeployed the arrays");
}

#[test]
fn the_tumble_hands_straight_over_to_the_deployment() {
    let mut v = Vehicle::new();
    assert_eq!(v.seq.mode, Mode::Safe);
    run(&mut v, 8.9);
    assert_eq!(v.seq.mode, Mode::Safe);
    run(&mut v, 0.2);
    assert_eq!(v.seq.mode, Mode::Deploying);
}

#[test]
fn deploy_runs_to_completion_and_stows_again() {
    let mut v = settled();
    // `settled()` already deployed; stow first so there is something to do.
    v.command(Command::Stow);
    run(&mut v, DEPLOY_DURATION_S + 1.0);
    assert_eq!(v.seq.mode, Mode::Nominal);
    assert!(v.progress().abs() < 1e-6);

    v.command(Command::Deploy);
    assert_eq!(v.seq.mode, Mode::Deploying);
    run(&mut v, DEPLOY_DURATION_S + 1.0);
    assert_eq!(v.seq.mode, Mode::Deployed);
    assert!((v.progress() - 1.0).abs() < 1e-6);
}

#[test]
fn deploy_is_refused_in_safe() {
    let mut v = Vehicle::new();
    v.command(Command::Deploy);
    assert_eq!(v.seq.mode, Mode::Safe);
    assert_eq!(v.progress(), 0.0);
}

#[test]
fn safe_refuses_everything_but_nominal_and_safe() {
    for cmd in [Command::NextTarget, Command::Hold, Command::Deploy, Command::Stow] {
        let mut s = Sequencer::new();
        let effect = s.command(cmd);
        assert_eq!(s, Sequencer::new(), "{cmd:?}");
        assert_eq!(effect.aim, Aim::Unchanged);
    }
    let mut s = Sequencer::new();
    assert_eq!(s.command(Command::Nominal).aim, Aim::Here);
    assert_eq!(s.mode, Mode::Nominal);
}

#[test]
fn stepping_is_deterministic() {
    let (mut a, mut b) = (Vehicle::new(), Vehicle::new());
    run(&mut a, 60.0);
    run(&mut b, 60.0);
    assert_eq!(a.seq, b.seq);
}

#[test]
fn the_survey_advances_on_its_own() {
    let mut v = Vehicle::new();
    run(&mut v, 60.0);
    let first = v.seq.targets_commanded;
    run(&mut v, 90.0);
    assert!(v.seq.targets_commanded > first, "sequencer never advanced");
    assert!(v.seq.survey_active);
}

#[test]
fn hold_stops_the_sequencer_and_next_target_restarts_it() {
    let mut v = settled();
    assert!(!v.seq.survey_active);
    let commanded = v.seq.targets_commanded;
    let index = v.seq.survey_index;
    run(&mut v, 60.0);
    assert_eq!(v.seq.targets_commanded, commanded, "held vehicle picked a new target");

    v.command(Command::NextTarget);
    assert!(v.seq.survey_active);
    assert_eq!(v.seq.targets_commanded, commanded + 1);
    assert_eq!(v.seq.survey_index, (index + 1) % 6);
}

#[test]
fn nominal_resumes_the_survey_that_a_hold_stopped() {
    let mut v = settled();
    v.command(Command::Hold);
    v.command(Command::Safe);
    assert!(!v.seq.survey_active);
    let commanded = v.seq.targets_commanded;
    let effect = v.seq.command(Command::Nominal);
    assert_eq!(effect.aim, Aim::Here);
    assert_eq!(v.seq.mode, Mode::Nominal);
    assert!(v.seq.survey_active);
    assert_eq!(v.seq.targets_commanded, commanded);
    let aim = v.seq.step_modes(Step { dt: 1, detumbled: true, on_target: true });
    assert_eq!(aim, Aim::Survey(v.seq.survey_index));
    assert_eq!(v.seq.targets_commanded, commanded + 1);
}

#[test]
fn a_vehicle_in_safe_surveys_nothing_but_can_be_dumped() {
    let mut s = Sequencer::new();
    assert_eq!(s.mode, Mode::Safe);
    let aim = s.step_modes(Step { dt: 60 * SECOND, detumbled: false, on_target: true });
    assert_eq!((aim, s.targets_commanded), (Aim::Unchanged, 0));
    let before = s;
    assert!(s.command(Command::DumpMomentum).dump_momentum);
    assert!(!s.command(Command::Deploy).dump_momentum);
    assert_eq!(s, before);
}

#[test]
fn only_a_dump_dumps_momentum() {
    let mut v = settled();
    let before = v.seq;
    assert!(v.seq.command(Command::DumpMomentum).dump_momentum);
    assert_eq!(v.seq, before);
    assert!(!v.seq.command(Command::Hold).dump_momentum);
}

#[test]
fn the_survey_visits_its_targets_in_turn() {
    let mut s = Sequencer::new();
    s.command(Command::Nominal);
    let aims: Vec<Aim> = (0..7).map(|_| s.command(Command::NextTarget).aim).collect();
    let wanted: Vec<Aim> = [1u8, 2, 3, 4, 5, 0, 1].iter().map(|i| Aim::Survey(*i)).collect();
    assert_eq!(aims, wanted);
}

#[test]
fn function_codes_map_onto_vehicle_commands() {
    assert_eq!(vehicle_command(rust_app::NOOP_CC), None);
    assert_eq!(vehicle_command(rust_app::RESET_COUNTERS_CC), None);
    assert_eq!(vehicle_command(rust_app::SAFE_CC), Some(Command::Safe));
    assert_eq!(vehicle_command(rust_app::NOMINAL_CC), Some(Command::Nominal));
    assert_eq!(vehicle_command(rust_app::NEXT_TARGET_CC), Some(Command::NextTarget));
    assert_eq!(vehicle_command(rust_app::HOLD_CC), Some(Command::Hold));
    assert_eq!(vehicle_command(rust_app::DEPLOY_CC), Some(Command::Deploy));
    assert_eq!(vehicle_command(rust_app::STOW_CC), Some(Command::Stow));
    assert_eq!(vehicle_command(rust_app::DUMP_MOMENTUM_CC), Some(Command::DumpMomentum));
    assert_eq!(vehicle_command(9), None);
}

#[test]
fn every_command_message_is_counted_once() {
    let mut hk = RustAppHk::default();
    assert_eq!(handle_command(&mut hk, Some(rust_app::NOOP_CC)), Handled::Noop);
    assert_eq!(
        handle_command(&mut hk, Some(rust_app::STOW_CC)),
        Handled::Vehicle(Command::Stow)
    );
    assert_eq!(handle_command(&mut hk, Some(99)), Handled::Unknown(99));
    assert_eq!(handle_command(&mut hk, None), Handled::Unreadable);
    assert_eq!((hk.command_counter, hk.command_error_counter), (2, 2));
    assert_eq!(
        handle_command(&mut hk, Some(rust_app::RESET_COUNTERS_CC)),
        Handled::CountersReset
    );
    assert_eq!((hk.command_counter, hk.command_error_counter), (0, 0));
}

#[test]
fn the_command_counter_wraps() {
    let mut hk = RustAppHk { command_counter: 255, ..RustAppHk::default() };
    handle_command(&mut hk, Some(rust_app::NOOP_CC));
    assert_eq!(hk.command_counter, 0);
}

#[test]
fn a_timeout_is_a_tick_and_other_failures_end_the_loop() {
    assert_eq!(receive_outcome(0, true), Received::Message);
    assert_eq!(receive_outcome(0xca00_0001_u32 as i32, false), Received::Tick);
    assert_eq!(receive_outcome(-1, false), Received::Failed);
    assert_eq!(receive_outcome(0, false), Received::Failed);
}

#[test]
fn a_cycle_integrates_the_time_it_lost_within_bounds() {
    let half: u32 = 0x8000_0000;
    assert_eq!(cycle_step((10, half / 4), (10, 0)), (half / 4) as u64);
    assert_eq!(cycle_step((11, 0), (10, half + half / 2)), (half / 2) as u64);
    assert_eq!(cycle_step((99, 0), (10, 0)), half as u64, "a starved task leapt");
    assert_eq!(cycle_step((9, 0), (10, 0)), 0, "a stepped clock ran backwards");
}

#[test]
fn housekeeping_is_due_every_tenth_cycle() {
    let mut cycles = 0;
    let due: Vec<bool> = (0..20).map(|_| count_cycle(&mut cycles)).collect();
    assert_eq!(due.iter().filter(|d| **d).count(), 2);
    assert!(due[9] && due[19]);
    let mut last = u32::MAX;
    assert!(count_cycle(&mut last));
    assert_eq!(last, 0);
}

#[test]
fn published_housekeeping_describes_the_vehicle() {
    let v = settled();
    let mut hk = RustAppHk { command_counter: 4, ..RustAppHk::default() };
    fill_housekeeping(&mut hk, &v.seq, true, 77);
    assert_eq!(hk.mode, 3);
    assert_eq!(hk.wheels_saturated, 1);
    assert_eq!(hk.control_cycles, 77);
    assert_eq!(hk.targets_commanded, v.seq.targets_commanded);
    assert_eq!(hk.command_counter, 4);
}

#[test]
fn the_application_comes_up_step_by_step() {
    assert_eq!(
        after_startup(Startup::RegisterEvents, 0),
        Next::Do(Startup::CreatePipe)
    );
    assert_eq!(
        after_startup(Startup::CreatePipe, 0),
        Next::Do(Startup::SubscribeToCommands)
    );
    assert_eq!(after_startup(Startup::SubscribeToCommands, 0), Next::Fly);
    assert_eq!(
        after_startup(Startup::RegisterEvents, -1),
        Next::Abandon("RUST_APP: Error Registering Events\n")
    );
    assert_eq!(
        after_startup(Startup::CreatePipe, -1),
        Next::Abandon("RUST_APP: Error Creating Pipe\n")
    );
    assert_eq!(
        after_startup(Startup::SubscribeToCommands, -1),
        Next::Abandon("RUST_APP: Error Subscribing to Commands\n")
    );
}
