//! How a vehicle mode and a link condition reach the screen.
//!
//! Nothing here decides what a value means; it only decides how that value is
//! presented.

use vstd::prelude::*;

use crate::clock::TICKS_PER_SECOND;
use crate::model::buffer::Freshness;
use crate::model::state::Mode;

verus! {

/// Modes in graph order. The index of a mode is also the index of its weight and of
/// its clip.
pub const MODE_COUNT: usize = 4;

pub fn mode_index(mode: Mode) -> (i: usize)
    ensures
        i == mode.code(),
        i < MODE_COUNT,
{
    match mode {
        Mode::Safe => 0,
        Mode::Nominal => 1,
        Mode::Deploying => 2,
        Mode::Deployed => 3,
    }
}

/// Name of the clip that poses a mode.
pub open spec fn clip_of(mode: Mode) -> Seq<char> {
    match mode {
        Mode::Safe => "ModeSafe"@,
        Mode::Nominal => "ModeNominal"@,
        Mode::Deploying => "ModeDeploying"@,
        Mode::Deployed => "ModeDeployed"@,
    }
}

/// Clip names in the generated asset, indexed by [`mode_index`].
pub fn mode_clips() -> (names: [&'static str; 4])
    ensures
        forall|m: Mode| #![trigger clip_of(m)] names[m.code()]@ == clip_of(m),
{
    ["ModeSafe", "ModeNominal", "ModeDeploying", "ModeDeployed"]
}

/// The pose each mode corresponds to: antenna elevation in degrees, and the scale of
/// the fault lamp in tenths.
pub open spec fn pose_of(mode: Mode) -> (i32, u32) {
    match mode {
        Mode::Safe => (-70i32, 18u32),
        Mode::Nominal => (0i32, 10u32),
        Mode::Deploying => (-20i32, 14u32),
        Mode::Deployed => (15i32, 10u32),
    }
}

pub fn mode_pose(mode: Mode) -> (pose: (i32, u32))
    ensures
        pose == pose_of(mode),
{
    match mode {
        Mode::Safe => (-70, 18),
        Mode::Nominal => (0, 10),
        Mode::Deploying => (-20, 14),
        Mode::Deployed => (15, 10),
    }
}

/// How to present the fault lamp this frame.
///
/// Most spacecraft telemetry is not rigid-body motion, and a mapping that only knows
/// how to move things cannot show a caution annunciator.
#[derive(Clone, Copy, Debug, PartialEq, Eq, Structural)]
pub struct Lamp {
    pub visible: bool,
    /// Multiplier on the material's authored emissive factor, in percent.
    pub emissive_percent: u8,
}

/// A square wave of `hz`: on for the first half of each period.
pub open spec fn lit(phase: u64, hz: int) -> bool {
    2 * (phase * hz % TICKS_PER_SECOND as int) < TICKS_PER_SECOND
}

fn blink(phase: u64, hz: u64) -> (on: bool)
    requires
        hz <= 2,
    ensures
        on == lit(phase, hz as int),
{
    assert(phase * hz <= phase * 2) by (nonlinear_arith)
        requires
            hz <= 2,
    ;
    let cycles: u128 = phase as u128 * hz as u128;
    2 * (cycles % TICKS_PER_SECOND as u128) < TICKS_PER_SECOND as u128
}

/// The lamp for a mode and link condition, `phase` ticks into the display's clock.
///
/// Link health outranks vehicle mode. If the data is stale the lamp reports *that*,
/// because a caution light driven by a frozen value asserts a condition the ground
/// no longer knows.
pub open spec fn lamp_for(mode: Mode, freshness: Freshness, phase: u64) -> Lamp {
    if freshness is NoData || freshness is Stale {
        Lamp { visible: lit(phase, 1), emissive_percent: 35 }
    } else {
        match mode {
            Mode::Safe => Lamp { visible: lit(phase, 2), emissive_percent: 100 },
            Mode::Deploying => Lamp { visible: true, emissive_percent: 70 },
            _ => Lamp { visible: true, emissive_percent: 12 },
        }
    }
}

pub fn lamp(mode: Mode, freshness: Freshness, phase: u64) -> (l: Lamp)
    ensures
        l == lamp_for(mode, freshness, phase),
{
    match freshness {
        Freshness::NoData | Freshness::Stale { .. } => Lamp {
            visible: blink(phase, 1),
            emissive_percent: 35,
        },
        _ => match mode {
            Mode::Safe => Lamp { visible: blink(phase, 2), emissive_percent: 100 },
            Mode::Deploying => Lamp { visible: true, emissive_percent: 70 },
            _ => Lamp { visible: true, emissive_percent: 12 },
        },
    }
}

/// Every mode has a pose of its own.
pub proof fn modes_are_told_apart_by_their_pose(a: Mode, b: Mode)
    requires
        pose_of(a).0 == pose_of(b).0,
    ensures
        a == b,
{
}

/// A link without fresh data never presents like a live one, whatever the modes
/// and whenever either is looked at.
pub proof fn a_stale_link_never_looks_live(
    a: Mode,
    b: Mode,
    dead: Freshness,
    fresh: Freshness,
    t: u64,
    u: u64,
)
    requires
        dead is NoData || dead is Stale,
        !(fresh is NoData) && !(fresh is Stale),
    ensures
        lamp_for(a, dead, t) != lamp_for(b, fresh, u),
{
}

/// The lamp tells of the link before it tells of the vehicle: without fresh data it
/// blinks dimly once a second in every mode. With it, `Safe` blinks at full brightness
/// twice a second, and every other mode is steady, brighter while something moves.
pub proof fn the_lamp_tells_of_the_link_first(mode: Mode, freshness: Freshness, phase: u64)
    ensures
        ({
            let l = lamp_for(mode, freshness, phase);
            let dead = freshness is NoData || freshness is Stale;
            &&& dead ==> l.emissive_percent == 35 && l.visible == (phase % 1_024_000_000
                < 512_000_000)
            &&& !dead && mode == Mode::Safe ==> l.emissive_percent == 100 && l.visible == (phase
                % 512_000_000 < 256_000_000)
            &&& !dead && mode == Mode::Deploying ==> l.emissive_percent == 70 && l.visible
            &&& !dead && (mode == Mode::Nominal || mode == Mode::Deployed) ==> l.emissive_percent
                == 12 && l.visible
        }),
{
}

/// The antenna folds away furthest in `Safe` and stands highest once deployed; the lamp
/// is at its own size unless the mode wants attention.
pub proof fn a_pose_shows_its_mode(mode: Mode)
    ensures
        mode == Mode::Safe <==> pose_of(mode) == (-70i32, 18u32),
        mode == Mode::Nominal <==> pose_of(mode) == (0i32, 10u32),
        mode == Mode::Deploying <==> pose_of(mode) == (-20i32, 14u32),
        mode == Mode::Deployed <==> pose_of(mode) == (15i32, 10u32),
{
}

/// A clip is named after the mode it poses.
pub proof fn a_clip_is_named_after_its_mode(mode: Mode)
    ensures
        clip_of(mode) == "Mode"@ + mode.title(),
{
    reveal_strlit("Mode");
    reveal_strlit("Safe");
    reveal_strlit("Nominal");
    reveal_strlit("Deploying");
    reveal_strlit("Deployed");
    reveal_strlit("ModeSafe");
    reveal_strlit("ModeNominal");
    reveal_strlit("ModeDeploying");
    reveal_strlit("ModeDeployed");
    assert(clip_of(mode) =~= "Mode"@ + mode.title());
}

} // verus!
