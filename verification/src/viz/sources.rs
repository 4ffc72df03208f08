//! Where each animated signal's value comes from, and what to do when the answer is
//! "nowhere".
//!
//! A stock cFS bundle publishes no vehicle dynamics. There are two honest responses
//! to that: to show nothing where there is no signal, and to derive what genuinely
//! can be derived from the packets that do arrive, clearly labelled as derived. This
//! module does both, and the panel prints the source of every signal.
//!
//! The ranking in [`resolve`] is the whole contract: a flight vehicle-state packet
//! beats a stand-in, a stand-in beats derivation from housekeeping, and derivation
//! beats inventing a number.

use vstd::prelude::*;

use crate::clock::TICKS_PER_SECOND;
use crate::ground::{Housekeeping, Telemetry};
use crate::model::buffer::{Freshness, Shown};
use crate::model::state::Mode;

verus! {

/// How many uplinked datagrams correspond to a full array deployment.
///
/// Arbitrary, and deliberately small enough that a few keypresses sweep the
/// mechanism end to end.
pub const PACKETS_PER_DEPLOY: u32 = 10;

/// Degrees of solar-array rotation per second of mission time.
pub const ARRAY_DEG_PER_S: i64 = 6;

/// Where a signal's value came from this frame.
#[derive(Clone, Copy, Debug, PartialEq, Eq)]
pub enum Source {
    /// Computed inside the flight application and decoded from the vehicle-state
    /// packet it published. The named field is the one that produced it.
    Flight(&'static str),
    /// The same payload from a stand-in: the same model, stepped in a host process.
    /// Distinguished from `Flight` because "a real cFS computed this" is a different
    /// claim from "the same code computed this somewhere else".
    Standin,
    /// Derived from a real cFE housekeeping field, named here.
    Derived(&'static str),
    /// Generated locally. Named so a screenshot can never be mistaken for one taken
    /// against a real link.
    Offline,
    /// No packet on this bus carries this quantity. The signal holds its default and
    /// the panel says so.
    Missing,
}

impl Source {
    pub open spec fn wording(self) -> Seq<char> {
        match self {
            Source::Flight(field) => field@,
            Source::Standin => "fake-cfs vehicle-state payload"@,
            Source::Offline => "synthetic (--offline)"@,
            Source::Derived(field) => field@,
            Source::Missing => "-- no source --"@,
        }
    }

    pub fn label(self) -> (s: &'static str)
        ensures
            s@ == self.wording(),
    {
        match self {
            Source::Flight(field) => field,
            Source::Standin => "fake-cfs vehicle-state payload",
            Source::Offline => "synthetic (--offline)",
            Source::Derived(field) => field,
            Source::Missing => "-- no source --",
        }
    }
}

/// One `Source` per animated signal, in panel order.
#[derive(Clone, Copy, Debug, PartialEq, Eq)]
pub struct Sources {
    pub attitude: Source,
    pub solar_array: Source,
    pub deploy: Source,
    pub mode: Source,
    pub wheels: Source,
}

impl Sources {
    /// Every signal from one source.
    pub open spec fn all(s: Source) -> Sources {
        Sources { attitude: s, solar_array: s, deploy: s, mode: s, wheels: s }
    }

    /// Every signal from the flight application, by the field that produced it.
    pub open spec fn all_flight() -> Sources {
        Sources {
            attitude: Source::Flight("RUST_APP.attitude (integrated)"),
            solar_array: Source::Flight("RUST_APP.array_deg (sun tracking)"),
            deploy: Source::Flight("RUST_APP.deploy_progress"),
            mode: Source::Flight("RUST_APP.mode"),
            wheels: Source::Flight("RUST_APP.wheel_rpm x4"),
        }
    }

    /// Every signal from the flight application's vehicle-state packet.
    pub fn flight() -> (s: Self)
        ensures
            s == Sources::all_flight(),
    {
        Sources {
            attitude: Source::Flight("RUST_APP.attitude (integrated)"),
            solar_array: Source::Flight("RUST_APP.array_deg (sun tracking)"),
            deploy: Source::Flight("RUST_APP.deploy_progress"),
            mode: Source::Flight("RUST_APP.mode"),
            wheels: Source::Flight("RUST_APP.wheel_rpm x4"),
        }
    }

    /// Every signal from the stand-in's vehicle-state payload.
    pub fn standin() -> (s: Self)
        ensures
            s == Sources::all(Source::Standin),
    {
        Sources {
            attitude: Source::Standin,
            solar_array: Source::Standin,
            deploy: Source::Standin,
            mode: Source::Standin,
            wheels: Source::Standin,
        }
    }

    /// Every signal generated locally.
    pub fn offline() -> (s: Self)
        ensures
            s == Sources::all(Source::Offline),
    {
        Sources {
            attitude: Source::Offline,
            solar_array: Source::Offline,
            deploy: Source::Offline,
            mode: Source::Offline,
            wheels: Source::Offline,
        }
    }

    /// No signal from anywhere.
    pub fn none() -> (s: Self)
        ensures
            s == Sources::all(Source::Missing),
    {
        Sources {
            attitude: Source::Missing,
            solar_array: Source::Missing,
            deploy: Source::Missing,
            mode: Source::Missing,
            wheels: Source::Missing,
        }
    }

    /// Rows for the panel: signal, source, and the mechanism that shows it.
    pub open spec fn table(self) -> Seq<(&'static str, Source, &'static str)> {
        seq![
            ("attitude", self.attitude, "direct transform"),
            ("solar array", self.solar_array, "direct transform"),
            ("deploy", self.deploy, "clip seek"),
            ("mode", self.mode, "graph blend"),
            ("wheels", self.wheels, "material emissive"),
        ]
    }

    pub fn rows(&self) -> (r: [(&'static str, Source, &'static str); 5])
        ensures
            r@ == self.table(),
    {
        let r = [
            ("attitude", self.attitude, "direct transform"),
            ("solar array", self.solar_array, "direct transform"),
            ("deploy", self.deploy, "clip seek"),
            ("mode", self.mode, "graph blend"),
            ("wheels", self.wheels, "material emissive"),
        ];
        assert(r@ =~= self.table());
        r
    }
}

/// Which pipeline produced the state the scene is showing.
#[derive(Clone, Copy, Debug, PartialEq, Eq, Structural)]
pub enum Pipeline {
    /// Nothing has arrived yet.
    Waiting,
    /// A vehicle-state payload from the flight application is driving the rig.
    Flight,
    /// A vehicle-state payload from a stand-in is driving the rig.
    Standin,
    /// Only flight-software housekeeping is arriving; the rig is driven by signals
    /// derived from it.
    Derived,
    /// No socket: the state is generated locally.
    Offline,
}

impl Pipeline {
    pub open spec fn wording(self) -> Seq<char> {
        match self {
            Pipeline::Waiting => "WAITING - no telemetry yet"@,
            Pipeline::Flight => "LIVE - vehicle state from RUST_APP, inside cFE"@,
            Pipeline::Standin => "LIVE - vehicle state from fake-cfs"@,
            Pipeline::Derived => "LIVE - derived from cFE housekeeping"@,
            Pipeline::Offline => "OFFLINE - no socket, synthetic state"@,
        }
    }

    pub fn label(self) -> (s: &'static str)
        ensures
            s@ == self.wording(),
    {
        match self {
            Pipeline::Waiting => "WAITING - no telemetry yet",
            Pipeline::Flight => "LIVE - vehicle state from RUST_APP, inside cFE",
            Pipeline::Standin => "LIVE - vehicle state from fake-cfs",
            Pipeline::Derived => "LIVE - derived from cFE housekeeping",
            Pipeline::Offline => "OFFLINE - no socket, synthetic state",
        }
    }
}

/// Baselines captured the first time housekeeping was seen.
///
/// Counters in cFE are absolute since the application started, and cFS has usually
/// been running for a while before a display connects. Subtracting a baseline is
/// what stops the array appearing fully deployed the moment the window opens.
#[derive(Clone, Copy, Debug, PartialEq, Eq)]
pub struct Baseline {
    pub ingest_packets: Option<u32>,
    /// Mission time in ticks.
    pub mission_time: Option<i64>,
}

impl Baseline {
    pub open spec fn unset() -> Baseline {
        Baseline { ingest_packets: None, mission_time: None }
    }
}

impl Default for Baseline {
    fn default() -> (b: Self)
        ensures
            b == Baseline::unset(),
    {
        Baseline { ingest_packets: None, mission_time: None }
    }
}

/// The vehicle state to animate.
#[derive(Clone, Copy, Debug, PartialEq, Eq)]
pub enum Resolved {
    /// What the vehicle-state stream shows.
    Vehicle(Shown),
    /// The default state: nothing is known.
    Unknown,
    /// Signals derived from housekeeping; everything else holds its default.
    Derived {
        mode: Mode,
        /// Deployment progress in parts of [`PACKETS_PER_DEPLOY`].
        deploy: u32,
        /// Array angle, in degrees times [`TICKS_PER_SECOND`], within one turn.
        array: i64,
    },
}

/// One full turn of the array.
pub const ARRAY_TURN: i64 = 368_640_000_000;

/// The mode a command counter steps through.
pub open spec fn stepped_mode(counter: u8) -> Mode {
    Mode::of_code(counter as int % 4)
}

/// Datagrams since the baseline, capped at a full deployment.
pub open spec fn deploy_since(ingest: u32, base: u32) -> int {
    if ingest < base {
        0
    } else if ingest - base > PACKETS_PER_DEPLOY {
        PACKETS_PER_DEPLOY as int
    } else {
        ingest - base
    }
}

/// Array rotation since the baseline, within one turn.
pub open spec fn array_since(now: i64, base: i64) -> int {
    (now - base) * ARRAY_DEG_PER_S % ARRAY_TURN as int
}

/// Baselines after a frame: what was not captured yet and is available now.
pub open spec fn baseline_after(hk: Housekeeping, b: Baseline) -> Baseline {
    Baseline {
        ingest_packets: match (b.ingest_packets, hk.ci_lab) {
            (None, Some(ci)) => Some(ci.ingest_packets),
            (kept, _) => kept,
        },
        mission_time: match (b.mission_time, hk.last_time) {
            (None, Some(t)) => Some(t),
            (kept, _) => kept,
        },
    }
}

/// A vehicle-state stream is driving the display.
pub open spec fn has_vehicle(t: Telemetry) -> bool {
    !(t.freshness is NoData)
}

/// What [`resolve`] decides.
pub open spec fn resolution(t: Telemetry, hk: Housekeeping, b: Baseline) -> (
    Resolved,
    Sources,
    Pipeline,
) {
    let base = baseline_after(hk, b);
    if has_vehicle(t) {
        if hk.rust_app is Some {
            (Resolved::Vehicle(t.shown), Sources::all_flight(), Pipeline::Flight)
        } else {
            (Resolved::Vehicle(t.shown), Sources::all(Source::Standin), Pipeline::Standin)
        }
    } else if hk.sample_app is None {
        (Resolved::Unknown, Sources::all(Source::Missing), Pipeline::Waiting)
    } else {
        (
            Resolved::Derived {
                mode: stepped_mode(hk.sample_app->0.command_counter),
                deploy: match hk.ci_lab {
                    Some(ci) => deploy_since(ci.ingest_packets, base.ingest_packets->0) as u32,
                    None => 0,
                },
                array: match hk.last_time {
                    Some(now) => array_since(now, base.mission_time->0) as i64,
                    None => 0,
                },
            },
            Sources {
                mode: Source::Derived("SAMPLE_APP.CommandCounter % 4"),
                deploy: if hk.ci_lab is Some {
                    Source::Derived("CI_LAB.IngestPackets since connect")
                } else {
                    Source::Missing
                },
                solar_array: if hk.last_time is Some {
                    Source::Derived("CFE mission time")
                } else {
                    Source::Missing
                },
                ..Sources::all(Source::Missing)
            },
            Pipeline::Derived,
        )
    }
}

/// Baselines after [`resolve`].
pub open spec fn baseline_left(t: Telemetry, hk: Housekeeping, b: Baseline) -> Baseline {
    if has_vehicle(t) || hk.sample_app is None {
        b
    } else {
        baseline_after(hk, b)
    }
}

/// Assemble vehicle state from whatever the bus actually carries.
///
/// A vehicle-state payload beats derivation. Which producer it came from is decided
/// by whether `RUST_APP` housekeeping is also on the bus, not by anything in the
/// vehicle packet: both producers emit byte-identical packets, so the packet cannot
/// identify its own author. Baselines are taken only where a signal is derived from
/// them.
pub fn resolve(telemetry: &Telemetry, hk: &Housekeeping, baseline: &mut Baseline) -> (r: (
    Resolved,
    Sources,
    Pipeline,
))
    ensures
        r == resolution(*telemetry, *hk, *old(baseline)),
        *final(baseline) == (if has_vehicle(*telemetry) || hk.sample_app is None {
            *old(baseline)
        } else {
            baseline_after(*hk, *old(baseline))
        }),
        *final(baseline) == baseline_left(*telemetry, *hk, *old(baseline)),
{
    if telemetry.freshness != Freshness::NoData {
        return if hk.rust_app.is_some() {
            (Resolved::Vehicle(telemetry.shown), Sources::flight(), Pipeline::Flight)
        } else {
            (Resolved::Vehicle(telemetry.shown), Sources::standin(), Pipeline::Standin)
        };
    }
    let sample_app = match hk.sample_app {
        Some(v) => v,
        None => {
            return (Resolved::Unknown, Sources::none(), Pipeline::Waiting);
        },
    };
    let mut sources = Sources::none();
    // A counter only *our* commands move. Sending a no-op steps the vehicle through
    // its modes: the pose change on screen is caused by a command that went to real
    // flight software and came back as telemetry.
    let mode = match sample_app.command_counter % 4 {
        0 => Mode::Safe,
        1 => Mode::Nominal,
        2 => Mode::Deploying,
        _ => Mode::Deployed,
    };
    sources.mode = Source::Derived("SAMPLE_APP.CommandCounter % 4");

    let mut deploy: u32 = 0;
    if let Some(ci) = hk.ci_lab {
        let base: u32 = match baseline.ingest_packets {
            Some(b) => b,
            None => ci.ingest_packets,
        };
        baseline.ingest_packets = Some(base);
        let since: u32 = ci.ingest_packets.saturating_sub(base);
        deploy = if since > PACKETS_PER_DEPLOY {
            PACKETS_PER_DEPLOY
        } else {
            since
        };
        sources.deploy = Source::Derived("CI_LAB.IngestPackets since connect");
    }
    let mut array: i64 = 0;
    if let Some(now) = hk.last_time {
        let base: i64 = match baseline.mission_time {
            Some(b) => b,
            None => now,
        };
        baseline.mission_time = Some(base);
        array = turn(now as i128 - base as i128);
        sources.solar_array = Source::Derived("CFE mission time");
    }
    // The attitude and the wheels keep their defaults, and `sources` still says so
    // for both. That gap is a result, not an omission.
    (Resolved::Derived { mode, deploy, array }, sources, Pipeline::Derived)
}

/// Array rotation over `gone` ticks, within one turn.
fn turn(gone: i128) -> (a: i64)
    requires
        -0x1_0000_0000_0000_0000 < gone < 0x1_0000_0000_0000_0000,
    ensures
        a == gone * ARRAY_DEG_PER_S % ARRAY_TURN as int,
        0 <= a < ARRAY_TURN,
{
    let total: i128 = gone * 6;
    let full: i128 = ARRAY_TURN as i128;
    if total >= 0 {
        (total % full) as i64
    } else {
        let back: i128 = (-total) % full;
        if back == 0 {
            0
        } else {
            (full - back) as i64
        }
    }
}

/// The freshness to show for a pipeline whose vehicle stream is this fresh.
pub open spec fn freshness_behind(pipeline: Pipeline, telemetry: Freshness) -> Freshness {
    if pipeline == Pipeline::Derived || pipeline == Pipeline::Offline {
        Freshness::Live
    } else {
        telemetry
    }
}

/// How fresh what is shown is.
///
/// Freshness describes the *vehicle-state* stream. When the rig is driven by derived
/// housekeeping there is no such stream, so the lamp must not be told the link is
/// dead: it is the derivation that has no vehicle packet, not the link that has no
/// packets.
pub fn shown_freshness(pipeline: Pipeline, telemetry: Freshness) -> (f: Freshness)
    ensures
        f == (if pipeline == Pipeline::Derived || pipeline == Pipeline::Offline {
            Freshness::Live
        } else {
            telemetry
        }),
        f == freshness_behind(pipeline, telemetry),
{
    match pipeline {
        Pipeline::Derived | Pipeline::Offline => Freshness::Live,
        _ => telemetry,
    }
}

/// The claim that flight software computed what is shown rests on the flight
/// application's own housekeeping: without it no vehicle packet can make it.
pub proof fn the_flight_claim_needs_flight_housekeeping(t: Telemetry, hk: Housekeeping, b: Baseline)
    ensures
        resolution(t, hk, b).2 == Pipeline::Flight <==> has_vehicle(t) && hk.rust_app is Some,
        resolution(t, hk, b).1.attitude is Flight <==> resolution(t, hk, b).2 == Pipeline::Flight,
{
}

/// A vehicle payload outranks derivation, and derivation outranks nothing.
pub proof fn sources_are_ranked(t: Telemetry, hk: Housekeeping, b: Baseline)
    ensures
        has_vehicle(t) ==> resolution(t, hk, b).0 == Resolved::Vehicle(t.shown),
        !has_vehicle(t) && hk.sample_app is Some ==> resolution(t, hk, b).0 is Derived,
        !has_vehicle(t) && hk.sample_app is None ==> resolution(t, hk, b).0 is Unknown
            && resolution(t, hk, b).1 == Sources::all(Source::Missing),
{
}

/// Stock cFS supplies no attitude and no wheel speeds: derivation never claims
/// either.
pub proof fn derivation_claims_no_attitude_and_no_wheels(
    t: Telemetry,
    hk: Housekeeping,
    b: Baseline,
)
    requires
        !has_vehicle(t),
    ensures
        resolution(t, hk, b).1.attitude is Missing,
        resolution(t, hk, b).1.wheels is Missing,
{
}

/// Whatever the counters stood at, the first frame that derives from them starts
/// from zero.
pub proof fn derivation_starts_from_zero(t: Telemetry, hk: Housekeeping)
    requires
        !has_vehicle(t),
        hk.sample_app is Some,
    ensures
        resolution(t, hk, Baseline::unset()).0 matches Resolved::Derived { mode, deploy, array }
            && deploy == 0 && array == 0,
{
}

/// What each signal is shown from, and as what. A vehicle stream is shown as it is, and is
/// the flight application's exactly where that reports. Without one, and without
/// `SAMPLE_APP`'s housekeeping, there is nothing to show. With that alone, its counter
/// steps the mode, `CI_LAB`'s count since its first sighting the deployment, up to ten,
/// and the time since its own first sighting the array, six degrees a second; each of the
/// two only where it is reported.
pub proof fn each_signal_has_one_source(t: Telemetry, hk: Housekeeping, b: Baseline)
    ensures
        ({
            let (shown, from, pipeline) = resolution(t, hk, b);
            let vehicle = !(t.freshness is NoData);
            let derived = !vehicle && hk.sample_app is Some;
            &&& vehicle ==> shown == Resolved::Vehicle(t.shown)
            &&& vehicle && hk.rust_app is Some ==> pipeline is Flight && from.attitude is Flight
                && from.solar_array is Flight && from.deploy is Flight && from.mode is Flight
                && from.wheels is Flight
            &&& vehicle && hk.rust_app is None ==> pipeline is Standin && from.attitude is Standin
                && from.solar_array is Standin && from.deploy is Standin && from.mode is Standin
                && from.wheels is Standin
            &&& !vehicle ==> from.attitude is Missing && from.wheels is Missing
            &&& !vehicle && hk.sample_app is None ==> shown is Unknown && pipeline is Waiting
                && from.mode is Missing && from.deploy is Missing && from.solar_array is Missing
            &&& derived ==> {
                &&& pipeline is Derived
                &&& shown is Derived
                &&& from.mode is Derived
                &&& from.deploy is Derived <==> hk.ci_lab is Some
                &&& from.deploy is Missing <==> hk.ci_lab is None
                &&& from.solar_array is Derived <==> hk.last_time is Some
                &&& from.solar_array is Missing <==> hk.last_time is None
                &&& shown->Derived_mode == (match hk.sample_app->0.command_counter % 4 {
                    0 => Mode::Safe,
                    1 => Mode::Nominal,
                    2 => Mode::Deploying,
                    _ => Mode::Deployed,
                })
            }
        }),
{
}

/// The deployment counts datagrams from the first count seen, from none to ten, and
/// never below none; the array turns by six degrees a second from the first time seen,
/// forwards and backwards, and reads within one turn. Neither moves unless reported.
pub proof fn derivation_counts_from_the_first_sighting(
    t: Telemetry,
    hk: Housekeeping,
    b: Baseline,
)
    requires
        t.freshness is NoData,
        hk.sample_app is Some,
    ensures
        ({
            let shown = resolution(t, hk, b).0;
            let n = hk.ci_lab->0.ingest_packets;
            let first = match b.ingest_packets {
                Some(k) => k,
                None => n,
            };
            let now = hk.last_time->0;
            let start = match b.mission_time {
                Some(s) => s,
                None => now,
            };
            &&& hk.ci_lab is None ==> shown->deploy == 0
            &&& hk.ci_lab is Some && n <= first ==> shown->deploy == 0
            &&& hk.ci_lab is Some && first <= n <= first + 10 ==> shown->deploy == n - first
            &&& hk.ci_lab is Some && n >= first + 10 ==> shown->deploy == 10
            &&& hk.last_time is None ==> shown->array == 0
            &&& hk.last_time is Some ==> {
                &&& 0 <= shown->array < 360 * 1_024_000_000
                &&& ((now - start) * 6 - shown->array) % 368_640_000_000 == 0
            }
        }),
{
    if hk.last_time is Some {
        let base = baseline_after(hk, b);
        let full = 368_640_000_000int;
        let total = (hk.last_time->0 - base.mission_time->0) * 6;
        assert(array_since(hk.last_time->0, base.mission_time->0) == total % full);
        assert((total - total % full) % full == 0) by (nonlinear_arith)
            requires
                full == 368_640_000_000int,
        ;
    }
}

/// A first sighting is taken once, of whatever is reported then, and kept.
pub proof fn a_first_sighting_is_kept(hk: Housekeeping, b: Baseline)
    ensures
        ({
            let after = baseline_after(hk, b);
            &&& b.ingest_packets is Some ==> after.ingest_packets == b.ingest_packets
            &&& b.ingest_packets is None && hk.ci_lab is Some ==> after.ingest_packets == Some(
                hk.ci_lab->0.ingest_packets,
            )
            &&& b.ingest_packets is None && hk.ci_lab is None ==> after.ingest_packets is None
            &&& b.mission_time is Some ==> after.mission_time == b.mission_time
            &&& b.mission_time is None ==> after.mission_time == hk.last_time
        }),
{
}

/// The table lists the five signals in order, each with its own source and the mechanism
/// that shows it.
pub proof fn the_table_lists_each_signal_once(s: Sources)
    ensures
        s.table().len() == 5,
        s.table()[0] == ("attitude", s.attitude, "direct transform"),
        s.table()[1] == ("solar array", s.solar_array, "direct transform"),
        s.table()[2] == ("deploy", s.deploy, "clip seek"),
        s.table()[3] == ("mode", s.mode, "graph blend"),
        s.table()[4] == ("wheels", s.wheels, "material emissive"),
{
}

/// Derived and offline signals are always as fresh as they can be; only a vehicle stream,
/// or the wait for one, tells its own freshness.
pub proof fn only_a_stream_tells_its_freshness(p: Pipeline, f: Freshness)
    ensures
        p is Derived || p is Offline ==> freshness_behind(p, f) is Live,
        p is Waiting || p is Flight || p is Standin ==> freshness_behind(p, f) == f,
{
}

/// Baselines move only where a signal is derived: a display that shows a vehicle stream,
/// or waits, leaves them.
pub proof fn baselines_are_taken_only_to_derive(t: Telemetry, hk: Housekeeping, b: Baseline)
    ensures
        !(t.freshness is NoData) || hk.sample_app is None ==> baseline_left(t, hk, b) == b,
        t.freshness is NoData && hk.sample_app is Some ==> baseline_left(t, hk, b)
            == baseline_after(hk, b),
        Baseline::unset().ingest_packets is None,
        Baseline::unset().mission_time is None,
{
}

/// A source is called by the field it is read from, or by what it is.
pub proof fn a_source_is_called_what_it_is(field: &'static str)
    ensures
        Source::Flight(field).wording() == field@,
        Source::Derived(field).wording() == field@,
        Source::Standin.wording() == "fake-cfs vehicle-state payload"@,
        Source::Offline.wording() == "synthetic (--offline)"@,
        Source::Missing.wording() == "-- no source --"@,
        Pipeline::Waiting.wording() == "WAITING - no telemetry yet"@,
        Pipeline::Flight.wording() == "LIVE - vehicle state from RUST_APP, inside cFE"@,
        Pipeline::Standin.wording() == "LIVE - vehicle state from fake-cfs"@,
        Pipeline::Derived.wording() == "LIVE - derived from cFE housekeeping"@,
        Pipeline::Offline.wording() == "OFFLINE - no socket, synthetic state"@,
{
}

/// Each signal of the flight application, and each derived one, is attributed to the field
/// that it comes from.
pub proof fn each_signal_names_its_field(t: Telemetry, hk: Housekeeping, b: Baseline)
    ensures
        ({
            let f = Sources::all_flight();
            &&& f.attitude == Source::Flight("RUST_APP.attitude (integrated)")
            &&& f.solar_array == Source::Flight("RUST_APP.array_deg (sun tracking)")
            &&& f.deploy == Source::Flight("RUST_APP.deploy_progress")
            &&& f.mode == Source::Flight("RUST_APP.mode")
            &&& f.wheels == Source::Flight("RUST_APP.wheel_rpm x4")
        }),
        ({
            let from = resolution(t, hk, b).1;
            let vehicle = !(t.freshness is NoData);
            &&& vehicle && hk.rust_app is Some ==> from == Sources::all_flight()
            &&& from.mode is Derived ==> from.mode == Source::Derived(
                "SAMPLE_APP.CommandCounter % 4",
            )
            &&& from.deploy is Derived ==> from.deploy == Source::Derived(
                "CI_LAB.IngestPackets since connect",
            )
            &&& from.solar_array is Derived ==> from.solar_array == Source::Derived(
                "CFE mission time",
            )
        }),
{
}

} // verus!
