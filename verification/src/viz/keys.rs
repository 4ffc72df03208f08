//! The command path: one keypress, one packet to the flight software.

use vstd::prelude::*;

use crate::ground::{CfsCommand, Housekeeping};
use crate::msg::rust_app;
use crate::viz::command_loop::CommandLoop;

verus! {

/// The key that sends a no-op.
pub const NOOP_KEY: char = 'N';

/// The key that resets the counters.
pub const RESET_KEY: char = 'R';

/// Keys that fly the vehicle: key, function code, label for the panel.
///
/// These reach the application running inside cFE and change what the spacecraft is
/// *doing*, not just what a counter reads.
pub open spec fn vehicle_table() -> Seq<(char, u8, &'static str)> {
    seq![
        ('T', rust_app::NEXT_TARGET_CC, "[T] slew to next target"),
        ('H', rust_app::HOLD_CC, "[H] inertial hold"),
        ('D', rust_app::DEPLOY_CC, "[D] deploy arrays"),
        ('S', rust_app::STOW_CC, "[S] stow arrays"),
        ('F', rust_app::SAFE_CC, "[F] safe mode"),
        ('M', rust_app::DUMP_MOMENTUM_CC, "[M] dump momentum"),
    ]
}

pub fn vehicle_keys() -> (t: [(char, u8, &'static str); 6])
    ensures
        t@ == vehicle_table(),
{
    let t = [
        ('T', rust_app::NEXT_TARGET_CC, "[T] slew to next target"),
        ('H', rust_app::HOLD_CC, "[H] inertial hold"),
        ('D', rust_app::DEPLOY_CC, "[D] deploy arrays"),
        ('S', rust_app::STOW_CC, "[S] stow arrays"),
        ('F', rust_app::SAFE_CC, "[F] safe mode"),
        ('M', rust_app::DUMP_MOMENTUM_CC, "[M] dump momentum"),
    ];
    assert(t@ =~= vehicle_table());
    t
}

/// The vehicle commands behind the first `n` keys of the table that are pressed.
pub open spec fn flown(pressed: Seq<char>, n: int) -> Seq<CfsCommand>
    decreases n,
{
    if n <= 0 {
        seq![]
    } else if pressed.contains(vehicle_table()[n - 1].0) {
        flown(pressed, n - 1).push(CfsCommand::RustApp(vehicle_table()[n - 1].1))
    } else {
        flown(pressed, n - 1)
    }
}

/// The commands a frame's key presses send, in order.
pub open spec fn commands_of(pressed: Seq<char>) -> Seq<CfsCommand> {
    (if pressed.contains(NOOP_KEY) {
        seq![CfsCommand::SampleAppNoop]
    } else {
        seq![]
    }) + (if pressed.contains(RESET_KEY) {
        seq![CfsCommand::SampleAppResetCounters]
    } else {
        seq![]
    }) + flown(pressed, 6)
}

/// The round-trip timer after a frame's key presses.
///
/// Only the `SAMPLE_APP` pair is tracked by it: its counter is a scalar that
/// provably changed, whereas "the vehicle started slewing" is not something this
/// can time.
pub open spec fn loop_after(
    l: CommandLoop,
    pressed: Seq<char>,
    hk: Housekeeping,
    now: u64,
) -> CommandLoop {
    let noop = if pressed.contains(NOOP_KEY) {
        l.after_send(hk.sample_app, now)
    } else {
        l
    };
    let reset = if pressed.contains(RESET_KEY) {
        noop.after_send(hk.sample_app, now)
    } else {
        noop
    };
    reset.after_look(hk.sample_app, now)
}

fn is_pressed(pressed: &Vec<char>, key: char) -> (yes: bool)
    ensures
        yes == pressed@.contains(key),
{
    let mut i: usize = 0;
    while i < pressed.len()
        invariant
            i <= pressed@.len(),
            forall|j: int| 0 <= j < i ==> pressed@[j] != key,
        decreases pressed@.len() - i,
    {
        if pressed[i] == key {
            return true;
        }
        i = i + 1;
    }
    false
}

/// Turn the keys pressed this frame into commands, and look for the round trip of
/// the one in flight.
pub fn command_keys(
    pressed: &Vec<char>,
    hk: &Housekeeping,
    now: u64,
    state: &mut CommandLoop,
) -> (out: Vec<CfsCommand>)
    ensures
        out@ == commands_of(pressed@),
        *final(state) == loop_after(*old(state), pressed@, *hk, now),
{
    let mut out: Vec<CfsCommand> = Vec::new();
    if is_pressed(pressed, NOOP_KEY) {
        out.push(CfsCommand::SampleAppNoop);
        state.on_sent(hk.sample_app, now);
    }
    if is_pressed(pressed, RESET_KEY) {
        out.push(CfsCommand::SampleAppResetCounters);
        state.on_sent(hk.sample_app, now);
    }
    let ghost first = out@;
    let keys = vehicle_keys();
    let mut i: usize = 0;
    assert(out@ =~= first + flown(pressed@, 0));
    while i < 6
        invariant
            i <= 6,
            keys@ == vehicle_table(),
            out@ == first + flown(pressed@, i as int),
        decreases 6 - i,
    {
        if is_pressed(pressed, keys[i].0) {
            out.push(CfsCommand::RustApp(keys[i].1));
        }
        i = i + 1;
        assert(out@ =~= first + flown(pressed@, i as int));
    }
    state.observe(hk.sample_app, now);
    assert(out@ =~= commands_of(pressed@));
    out
}

/// Flying the vehicle never disturbs the round-trip timer.
pub proof fn vehicle_keys_are_not_timed(
    l: CommandLoop,
    pressed: Seq<char>,
    hk: Housekeeping,
    now: u64,
)
    requires
        !pressed.contains(NOOP_KEY),
        !pressed.contains(RESET_KEY),
    ensures
        loop_after(l, pressed, hk, now) == l.after_look(hk.sample_app, now),
{
}

/// `cmd`, if `key` is among those pressed.
pub open spec fn pressed_for(pressed: Seq<char>, key: char, cmd: CfsCommand) -> Seq<CfsCommand> {
    if pressed.contains(key) {
        seq![cmd]
    } else {
        seq![]
    }
}

/// Each key sends its own command once, however often it is pressed in a frame, and
/// always in the same order: the no-op, the reset, then the vehicle's.
pub proof fn each_key_sends_its_own_command(pressed: Seq<char>)
    ensures
        commands_of(pressed) == pressed_for(pressed, 'N', CfsCommand::SampleAppNoop) + pressed_for(
            pressed,
            'R',
            CfsCommand::SampleAppResetCounters,
        ) + pressed_for(pressed, 'T', CfsCommand::RustApp(4)) + pressed_for(
            pressed,
            'H',
            CfsCommand::RustApp(5),
        ) + pressed_for(pressed, 'D', CfsCommand::RustApp(6)) + pressed_for(
            pressed,
            'S',
            CfsCommand::RustApp(7),
        ) + pressed_for(pressed, 'F', CfsCommand::RustApp(2)) + pressed_for(
            pressed,
            'M',
            CfsCommand::RustApp(8),
        ),
{
    let sample = pressed_for(pressed, 'N', CfsCommand::SampleAppNoop) + pressed_for(
        pressed,
        'R',
        CfsCommand::SampleAppResetCounters,
    );
    assert(sample + flown(pressed, 0) =~= sample);
    lemma_flown(sample, pressed, 1);
    lemma_flown(sample, pressed, 2);
    lemma_flown(sample, pressed, 3);
    lemma_flown(sample, pressed, 4);
    lemma_flown(sample, pressed, 5);
    lemma_flown(sample, pressed, 6);
}

proof fn lemma_flown(before: Seq<CfsCommand>, pressed: Seq<char>, n: int)
    requires
        0 < n <= 6,
    ensures
        before + flown(pressed, n) == before + flown(pressed, n - 1) + pressed_for(
            pressed,
            vehicle_table()[n - 1].0,
            CfsCommand::RustApp(vehicle_table()[n - 1].1),
        ),
{
    assert(before + flown(pressed, n) =~= before + flown(pressed, n - 1) + pressed_for(
        pressed,
        vehicle_table()[n - 1].0,
        CfsCommand::RustApp(vehicle_table()[n - 1].1),
    ));
}

/// The timer sees a send for each of the two keys it tracks, and then looks once.
pub proof fn the_timer_follows_two_keys(
    l: CommandLoop,
    pressed: Seq<char>,
    hk: Housekeeping,
    now: u64,
)
    ensures
        ({
            let sends = (if pressed.contains('N') {
                1int
            } else {
                0
            }) + (if pressed.contains('R') {
                1int
            } else {
                0
            });
            let once = l.after_send(hk.sample_app, now);
            let twice = once.after_send(hk.sample_app, now);
            let after = loop_after(l, pressed, hk, now);
            &&& sends == 0 ==> after == l.after_look(hk.sample_app, now)
            &&& sends == 1 ==> after == once.after_look(hk.sample_app, now)
            &&& sends == 2 ==> after == twice.after_look(hk.sample_app, now)
        }),
{
}

/// Every label names its own key in brackets.
pub proof fn a_label_names_its_key(i: int)
    requires
        0 <= i < 6,
    ensures
        ({
            let label = vehicle_table()[i].2@;
            &&& vehicle_table().len() == 6
            &&& label.len() > 3
            &&& label[0] == '['
            &&& label[1] == vehicle_table()[i].0
            &&& label[2] == ']'
        }),
{
    reveal_strlit("[T] slew to next target");
    reveal_strlit("[H] inertial hold");
    reveal_strlit("[D] deploy arrays");
    reveal_strlit("[S] stow arrays");
    reveal_strlit("[F] safe mode");
    reveal_strlit("[M] dump momentum");
}

} // verus!
