//! The decisions of the flight application: what a received message means, what a
//! function code does, how much time a control cycle integrates, and when to
//! publish.

use vstd::prelude::*;

use crate::model::state::Mode;
use crate::msg::rust_app;
use crate::msg::rust_app::RustAppHk;
use crate::vehicle::{Command, Sequencer};

verus! {

/// Control period, milliseconds.
pub const CONTROL_PERIOD_MS: i32 = 100;

/// Publish housekeeping every this many control cycles.
pub const HK_EVERY_CYCLES: u32 = 10;

/// `CFE_SB_TIME_OUT`.
pub const CFE_SB_TIME_OUT: i32 = -905_969_663;

/// Subseconds of cFE time in a second, 2^32.
pub const SUBSECONDS_PER_SECOND: u64 = 0x1_0000_0000;

/// Upper bound on a single integration step, in cFE subseconds: half a second.
///
/// The step is measured, so that a late loop integrates the time it actually lost.
/// If the task is starved, or the mission clock is stepped by a time command, one
/// step would arrive with a huge duration; clamping makes the vehicle fall behind
/// real time rather than teleport.
pub const MAX_STEP: u64 = 0x8000_0000;

/// The vehicle command behind a function code, if it is one.
pub open spec fn command_for(function_code: u8) -> Option<Command> {
    if function_code == rust_app::SAFE_CC {
        Some(Command::Safe)
    } else if function_code == rust_app::NOMINAL_CC {
        Some(Command::Nominal)
    } else if function_code == rust_app::NEXT_TARGET_CC {
        Some(Command::NextTarget)
    } else if function_code == rust_app::HOLD_CC {
        Some(Command::Hold)
    } else if function_code == rust_app::DEPLOY_CC {
        Some(Command::Deploy)
    } else if function_code == rust_app::STOW_CC {
        Some(Command::Stow)
    } else if function_code == rust_app::DUMP_MOMENTUM_CC {
        Some(Command::DumpMomentum)
    } else {
        None
    }
}

/// Map a function code onto a vehicle command.
///
/// `None` for the codes that are not vehicle commands at all and for unknown ones;
/// the caller distinguishes the two.
pub fn vehicle_command(function_code: u8) -> (cmd: Option<Command>)
    ensures
        cmd == command_for(function_code),
{
    match function_code {
        rust_app::SAFE_CC => Some(Command::Safe),
        rust_app::NOMINAL_CC => Some(Command::Nominal),
        rust_app::NEXT_TARGET_CC => Some(Command::NextTarget),
        rust_app::HOLD_CC => Some(Command::Hold),
        rust_app::DEPLOY_CC => Some(Command::Deploy),
        rust_app::STOW_CC => Some(Command::Stow),
        rust_app::DUMP_MOMENTUM_CC => Some(Command::DumpMomentum),
        _ => None,
    }
}

/// What came of a command message.
#[derive(Clone, Copy, Debug, PartialEq, Eq, Structural)]
pub enum Handled {
    /// Its function code could not be read.
    Unreadable,
    Noop,
    CountersReset,
    Vehicle(Command),
    Unknown(u8),
}

/// What a function code means, or the failure to read one.
pub open spec fn meaning_of(function_code: Option<u8>) -> Handled {
    match function_code {
        None => Handled::Unreadable,
        Some(fc) => if fc == rust_app::NOOP_CC {
            Handled::Noop
        } else if fc == rust_app::RESET_COUNTERS_CC {
            Handled::CountersReset
        } else {
            match command_for(fc) {
                Some(cmd) => Handled::Vehicle(cmd),
                None => Handled::Unknown(fc),
            }
        },
    }
}

/// The counters after a command message.
pub open spec fn counted(hk: RustAppHk, handled: Handled) -> RustAppHk {
    match handled {
        Handled::Noop | Handled::Vehicle(_) => RustAppHk {
            command_counter: hk.command_counter.wrapping_add(1),
            ..hk
        },
        Handled::CountersReset => RustAppHk {
            command_counter: 0,
            command_error_counter: 0,
            ..hk
        },
        Handled::Unreadable | Handled::Unknown(_) => RustAppHk {
            command_error_counter: hk.command_error_counter.wrapping_add(1),
            ..hk
        },
    }
}

/// Dispatch one received command, by its function code or the failure to read one.
pub fn handle_command(hk: &mut RustAppHk, function_code: Option<u8>) -> (handled: Handled)
    ensures
        handled == meaning_of(function_code),
        *final(hk) == counted(*old(hk), handled),
{
    let fc: u8 = match function_code {
        Some(fc) => fc,
        None => {
            hk.command_error_counter = hk.command_error_counter.wrapping_add(1);
            return Handled::Unreadable;
        },
    };
    match fc {
        rust_app::NOOP_CC => {
            hk.command_counter = hk.command_counter.wrapping_add(1);
            Handled::Noop
        },
        rust_app::RESET_COUNTERS_CC => {
            hk.command_counter = 0;
            hk.command_error_counter = 0;
            Handled::CountersReset
        },
        _ => match vehicle_command(fc) {
            Some(cmd) => {
                hk.command_counter = hk.command_counter.wrapping_add(1);
                Handled::Vehicle(cmd)
            },
            None => {
                hk.command_error_counter = hk.command_error_counter.wrapping_add(1);
                Handled::Unknown(fc)
            },
        },
    }
}

/// Octets of a vehicle-state packet on the wire.
pub const VEHICLE_TLM_LEN: usize = 57;

/// Octets of a housekeeping packet on the wire.
pub const HK_TLM_LEN: usize = 28;

/// How many messages the command pipe holds.
pub const PIPE_DEPTH: u16 = 8;

/// A step of bringing the application up, in order.
#[derive(Clone, Copy, Debug, PartialEq, Eq, Structural)]
pub enum Startup {
    RegisterEvents,
    CreatePipe,
    /// Without this the application would publish telemetry and never hear a
    /// command: an uplinked packet is on the bus, but only subscribers get it.
    SubscribeToCommands,
}

/// What follows a step of bringing the application up.
#[derive(Clone, Copy, Debug, PartialEq, Eq)]
pub enum Next {
    Do(Startup),
    Fly,
    /// Give up, with a line for the system log.
    Abandon(&'static str),
}

/// What follows `step`, by the status it returned: the next one, or giving up on a
/// negative status.
pub open spec fn next_of(step: Startup, status: i32) -> Next {
    match step {
        Startup::RegisterEvents => if status < 0 {
            Next::Abandon("RUST_APP: Error Registering Events\n")
        } else {
            Next::Do(Startup::CreatePipe)
        },
        Startup::CreatePipe => if status < 0 {
            Next::Abandon("RUST_APP: Error Creating Pipe\n")
        } else {
            Next::Do(Startup::SubscribeToCommands)
        },
        Startup::SubscribeToCommands => if status < 0 {
            Next::Abandon("RUST_APP: Error Subscribing to Commands\n")
        } else {
            Next::Fly
        },
    }
}

pub fn after_startup(step: Startup, status: i32) -> (next: Next)
    ensures
        next == next_of(step, status),
{
    match step {
        Startup::RegisterEvents => if status < 0 {
            Next::Abandon("RUST_APP: Error Registering Events\n")
        } else {
            Next::Do(Startup::CreatePipe)
        },
        Startup::CreatePipe => if status < 0 {
            Next::Abandon("RUST_APP: Error Creating Pipe\n")
        } else {
            Next::Do(Startup::SubscribeToCommands)
        },
        Startup::SubscribeToCommands => if status < 0 {
            Next::Abandon("RUST_APP: Error Subscribing to Commands\n")
        } else {
            Next::Fly
        },
    }
}

/// What to do with what the software bus returned.
#[derive(Clone, Copy, Debug, PartialEq, Eq, Structural)]
pub enum Received {
    /// A message to dispatch before this control cycle.
    Message,
    /// Nothing arrived in time: how the control loop gets its tick.
    Tick,
    /// A real pipe error: leave the loop.
    Failed,
}

/// What a receive comes to, by its status and whether it delivered a buffer.
pub open spec fn outcome_of(status: i32, delivered: bool) -> Received {
    if status >= 0 && delivered {
        Received::Message
    } else if status == CFE_SB_TIME_OUT {
        Received::Tick
    } else {
        Received::Failed
    }
}

/// Judge a receive by its status and whether it delivered a buffer.
pub fn receive_outcome(status: i32, delivered: bool) -> (r: Received)
    ensures
        r == (if status >= 0 && delivered {
            Received::Message
        } else if status == CFE_SB_TIME_OUT {
            Received::Tick
        } else {
            Received::Failed
        }),
        r == outcome_of(status, delivered),
{
    if status >= 0 && delivered {
        Received::Message
    } else if status == CFE_SB_TIME_OUT {
        Received::Tick
    } else {
        Received::Failed
    }
}

/// A cFE time in subseconds.
pub open spec fn instant(seconds: u32, subseconds: u32) -> int {
    seconds * SUBSECONDS_PER_SECOND + subseconds
}

/// The step from one reading of the mission clock to another.
pub open spec fn step_between(now: (u32, u32), last: (u32, u32)) -> int {
    let gone = instant(now.0, now.1) - instant(last.0, last.1);
    if gone < 0 {
        0
    } else if gone > MAX_STEP {
        MAX_STEP as int
    } else {
        gone
    }
}

/// How long a control cycle integrates, in cFE subseconds: the time since the last
/// one, no less than nothing and no more than [`MAX_STEP`].
///
/// The mission clock can be stepped backwards by a time command, and a negative
/// step would integrate the vehicle into its own past.
pub fn cycle_step(now: (u32, u32), last: (u32, u32)) -> (dt: u64)
    ensures
        dt == ({
            let gone = instant(now.0, now.1) - instant(last.0, last.1);
            if gone < 0 {
                0
            } else if gone > MAX_STEP {
                MAX_STEP as int
            } else {
                gone
            }
        }),
        dt == step_between(now, last),
{
    let a: u64 = now.0 as u64 * SUBSECONDS_PER_SECOND + now.1 as u64;
    let b: u64 = last.0 as u64 * SUBSECONDS_PER_SECOND + last.1 as u64;
    let gone: u64 = a.saturating_sub(b);
    if gone > MAX_STEP {
        MAX_STEP
    } else {
        gone
    }
}

/// Housekeeping is due with this cycle.
pub open spec fn hk_due(cycles: u32) -> bool {
    cycles % HK_EVERY_CYCLES == 0
}

/// Count a control cycle. True when housekeeping is due with it.
pub fn count_cycle(cycles: &mut u32) -> (publish_hk: bool)
    ensures
        *final(cycles) == old(cycles).wrapping_add(1),
        publish_hk == (*final(cycles) % HK_EVERY_CYCLES == 0),
        publish_hk == hk_due(*final(cycles)),
{
    *cycles = cycles.wrapping_add(1);
    *cycles % HK_EVERY_CYCLES == 0
}

/// `hk` with what the vehicle has to say.
pub open spec fn filled(
    hk: RustAppHk,
    vehicle: Sequencer,
    saturated: bool,
    cycles: u32,
) -> RustAppHk {
    RustAppHk {
        mode: vehicle.mode.code() as u8,
        wheels_saturated: if saturated {
            1
        } else {
            0
        },
        control_cycles: cycles,
        targets_commanded: vehicle.targets_commanded,
        ..hk
    }
}

/// Housekeeping as it is published: the counters it has, and the vehicle's state.
pub fn fill_housekeeping(hk: &mut RustAppHk, vehicle: &Sequencer, saturated: bool, cycles: u32)
    ensures
        *final(hk) == (RustAppHk {
            mode: vehicle.mode.code() as u8,
            wheels_saturated: if saturated {
                1
            } else {
                0
            },
            control_cycles: cycles,
            targets_commanded: vehicle.targets_commanded,
            ..*old(hk)
        }),
        *final(hk) == filled(*old(hk), *vehicle, saturated, cycles),
{
    hk.mode = vehicle.mode.to_u8();
    hk.wheels_saturated = if saturated {
        1
    } else {
        0
    };
    hk.control_cycles = cycles;
    hk.targets_commanded = vehicle.targets_commanded;
}

/// The application flies exactly when registering, creating the pipe and
/// subscribing all succeed, in that order.
pub proof fn the_application_flies_only_when_every_step_succeeds(a: i32, b: i32, c: i32)
    ensures
        next_of(Startup::RegisterEvents, a) == Next::Do(Startup::CreatePipe) <==> a >= 0,
        next_of(Startup::CreatePipe, b) == Next::Do(Startup::SubscribeToCommands) <==> b >= 0,
        next_of(Startup::SubscribeToCommands, c) == Next::Fly <==> c >= 0,
{
}

/// Every command is counted exactly once: as accepted when its function code is
/// one of the nine, as an error otherwise, a reset leaving both counters at zero.
pub proof fn every_command_is_counted_once(hk: RustAppHk, fc: u8)
    ensures
        ({
            let after = counted(hk, meaning_of(Some(fc)));
            &&& fc == rust_app::RESET_COUNTERS_CC ==> after.command_counter == 0
                && after.command_error_counter == 0
            &&& fc <= rust_app::DUMP_MOMENTUM_CC && fc != rust_app::RESET_COUNTERS_CC
                ==> after.command_counter == hk.command_counter.wrapping_add(1)
                && after.command_error_counter == hk.command_error_counter
            &&& fc > rust_app::DUMP_MOMENTUM_CC ==> after.command_counter == hk.command_counter
                && after.command_error_counter == hk.command_error_counter.wrapping_add(1)
        }),
{
}

/// Function codes 2 to 8 are the vehicle's commands, in order; no other code is one.
pub proof fn codes_two_to_eight_command_the_vehicle(fc: u8)
    ensures
        command_for(fc) is Some <==> 2 <= fc <= 8,
        command_for(fc) == Some(Command::Safe) <==> fc == 2,
        command_for(fc) == Some(Command::Nominal) <==> fc == 3,
        command_for(fc) == Some(Command::NextTarget) <==> fc == 4,
        command_for(fc) == Some(Command::Hold) <==> fc == 5,
        command_for(fc) == Some(Command::Deploy) <==> fc == 6,
        command_for(fc) == Some(Command::Stow) <==> fc == 7,
        command_for(fc) == Some(Command::DumpMomentum) <==> fc == 8,
{
}

/// What each command message comes to, by its function code, and what it does to the
/// counters: a no-op and a vehicle command are accepted, a reset leaves none, and
/// anything else, unreadable or unknown, is an error. What housekeeping says of the
/// vehicle stays.
pub proof fn each_code_has_one_meaning(hk: RustAppHk, code: Option<u8>)
    ensures
        ({
            let handled = meaning_of(code);
            let after = counted(hk, handled);
            let accepted = code matches Some(fc) && (fc == 0 || 2 <= fc <= 8);
            let reset = code == Some(1u8);
            &&& handled is Unreadable <==> code is None
            &&& handled is Noop <==> code == Some(0u8)
            &&& handled is CountersReset <==> reset
            &&& handled is Vehicle <==> (code matches Some(fc) && 2 <= fc <= 8)
            &&& handled is Vehicle ==> Some(handled->Vehicle_0) == command_for(code->0)
            &&& code is Some && code->0 > 8 ==> handled == Handled::Unknown(code->0)
            &&& reset ==> after.command_counter == 0 && after.command_error_counter == 0
            &&& accepted ==> after.command_counter == hk.command_counter.wrapping_add(1)
                && after.command_error_counter == hk.command_error_counter
            &&& !accepted && !reset ==> after.command_counter == hk.command_counter
                && after.command_error_counter == hk.command_error_counter.wrapping_add(1)
            &&& after.mode == hk.mode
            &&& after.wheels_saturated == hk.wheels_saturated
            &&& after.control_cycles == hk.control_cycles
            &&& after.targets_commanded == hk.targets_commanded
        }),
{
}

/// A negative status at any step gives up with a line that names the step.
pub proof fn a_failed_step_says_which(status: i32)
    requires
        status < 0,
    ensures
        next_of(Startup::RegisterEvents, status) == Next::Abandon(
            "RUST_APP: Error Registering Events\n",
        ),
        next_of(Startup::CreatePipe, status) == Next::Abandon("RUST_APP: Error Creating Pipe\n"),
        next_of(Startup::SubscribeToCommands, status) == Next::Abandon(
            "RUST_APP: Error Subscribing to Commands\n",
        ),
{
}

/// A control cycle never integrates into the past nor more than half a second, and
/// otherwise exactly the time between its two readings of the clock, seconds and
/// subseconds alike. Two cycles that meet integrate what one over both would, as long as
/// that is half a second at most.
pub proof fn a_cycle_integrates_the_time_between(
    now: (u32, u32),
    last: (u32, u32),
    between: (u32, u32),
)
    ensures
        ({
            let gone = (now.0 - last.0) * 0x1_0000_0000 + (now.1 - last.1);
            &&& gone <= 0 ==> step_between(now, last) == 0
            &&& gone >= 0x8000_0000 ==> step_between(now, last) == 0x8000_0000
            &&& 0 <= gone <= 0x8000_0000 ==> step_between(now, last) == gone
            &&& step_between(between, last) > 0 && step_between(now, between) > 0 && gone
                <= 0x8000_0000 ==> step_between(now, last) == step_between(between, last)
                + step_between(now, between)
        }),
{
}

/// A message wins over everything; a timeout, which is negative, is a tick; any other
/// status is a failure, and so is a success that delivers nothing.
pub proof fn only_a_timeout_is_a_tick(status: i32, delivered: bool)
    ensures
        outcome_of(status, delivered) is Message <==> 0 <= status && delivered,
        outcome_of(status, delivered) is Tick <==> status == -905_969_663,
        outcome_of(status, delivered) is Failed <==> status != -905_969_663 && (status < 0
            || !delivered),
{
}

/// Of any ten cycles in a row exactly one publishes housekeeping, as long as the count
/// does not wrap among them.
pub proof fn one_cycle_in_ten_publishes(cycles: u32, k: int)
    requires
        cycles <= 0xFFFF_FFFF - 10,
    ensures
        hk_due((cycles + (10 - cycles % 10)) as u32),
        0 < k <= 10 && hk_due((cycles + k) as u32) ==> k == 10 - cycles % 10,
{
}

/// Published housekeeping has the vehicle's mode and targets and the cycles flown, and
/// the command counters as they were.
pub proof fn published_housekeeping_is_the_vehicles(
    hk: RustAppHk,
    vehicle: Sequencer,
    saturated: bool,
    cycles: u32,
)
    ensures
        ({
            let after = filled(hk, vehicle, saturated, cycles);
            &&& Mode::of_code(after.mode as int) == vehicle.mode
            &&& after.mode <= 3
            &&& after.wheels_saturated == 1 <==> saturated
            &&& after.wheels_saturated == 0 <==> !saturated
            &&& after.control_cycles == cycles
            &&& after.targets_commanded == vehicle.targets_commanded
            &&& after.command_counter == hk.command_counter
            &&& after.command_error_counter == hk.command_error_counter
        }),
{
}

} // verus!
