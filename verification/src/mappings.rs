//! Three ways to drive one rig from one telemetry stream, side by side.
//!
//! Adjacent columns differ in exactly one mechanism: the first two in what moves the
//! deployment, the last two in what poses the mode.

use vstd::prelude::*;

use crate::model::state::Mode;
use crate::text;

verus! {

/// What drives a column.
#[derive(Clone, Copy, Debug, PartialEq, Eq, Structural)]
pub enum Mapping {
    Direct,
    ClipSeek,
    GraphBlend,
}

impl Mapping {
    pub open spec fn wording(self) -> Seq<char> {
        match self {
            Mapping::Direct => "1. DIRECT TRANSFORM"@,
            Mapping::ClipSeek => "2. CLIP AS LOOKUP TABLE"@,
            Mapping::GraphBlend => "3. ANIMATION GRAPH BLEND"@,
        }
    }

    pub fn label(self) -> (s: &'static str)
        ensures
            s@ == self.wording(),
    {
        match self {
            Mapping::Direct => "1. DIRECT TRANSFORM",
            Mapping::ClipSeek => "2. CLIP AS LOOKUP TABLE",
            Mapping::GraphBlend => "3. ANIMATION GRAPH BLEND",
        }
    }

    /// Every column, from left to right.
    pub fn all() -> (a: [Mapping; 3])
        ensures
            a@ == seq![Mapping::Direct, Mapping::ClipSeek, Mapping::GraphBlend],
    {
        let a = [Mapping::Direct, Mapping::ClipSeek, Mapping::GraphBlend];
        assert(a@ =~= seq![Mapping::Direct, Mapping::ClipSeek, Mapping::GraphBlend]);
        a
    }

    /// The animation graph poses the mode.
    pub open spec fn poses_by_graph(self) -> bool {
        self == Mapping::GraphBlend
    }

    /// The panels are driven by the column itself.
    pub open spec fn moves_panels(self) -> bool {
        self == Mapping::Direct
    }

    /// Does this column let the animation system own the mode pose?
    pub fn blends_modes(self) -> (yes: bool)
        ensures
            yes == (self == Mapping::GraphBlend),
            yes == self.poses_by_graph(),
    {
        match self {
            Mapping::GraphBlend => true,
            _ => false,
        }
    }

    /// Does this column drive the panels itself rather than seeking a clip?
    pub fn drives_panels(self) -> (yes: bool)
        ensures
            yes == (self == Mapping::Direct),
            yes == self.moves_panels(),
    {
        match self {
            Mapping::Direct => true,
            _ => false,
        }
    }
}

/// When the scripted vehicle leaves `Safe`: 1.5 s.
pub const NOMINAL_AT: u64 = 1_536_000_000;

/// When it starts to deploy: 2 s.
pub const DEPLOY_AT: u64 = 2_048_000_000;

/// How long it takes to: 8 s.
pub const DEPLOY_LASTS: u64 = 8_192_000_000;

/// The mode of the scripted vehicle `t` ticks in.
pub open spec fn mode_of(t: u64) -> Mode {
    if t < NOMINAL_AT {
        Mode::Safe
    } else if t < DEPLOY_AT {
        Mode::Nominal
    } else if t < DEPLOY_AT + DEPLOY_LASTS {
        Mode::Deploying
    } else {
        Mode::Deployed
    }
}

/// The script: it holds in `Safe`, deploys, then holds in `Deployed`, so the mode
/// transition and the end stops are both visible.
pub fn scripted_mode(t: u64) -> (m: Mode)
    ensures
        m == mode_of(t),
{
    if t < NOMINAL_AT {
        Mode::Safe
    } else if t < DEPLOY_AT {
        Mode::Nominal
    } else if t < DEPLOY_AT + DEPLOY_LASTS {
        Mode::Deploying
    } else {
        Mode::Deployed
    }
}

/// Ticks of the deployment that have passed `t` ticks in.
pub open spec fn deployed_by(t: u64) -> u64 {
    if t < DEPLOY_AT {
        0
    } else if t - DEPLOY_AT > DEPLOY_LASTS {
        DEPLOY_LASTS
    } else {
        (t - DEPLOY_AT) as u64
    }
}

pub fn scripted_deployment(t: u64) -> (d: u64)
    ensures
        d == deployed_by(t),
{
    let gone: u64 = t.saturating_sub(DEPLOY_AT);
    if gone > DEPLOY_LASTS {
        DEPLOY_LASTS
    } else {
        gone
    }
}

/// What the comparison was asked to do. Times come as the text given.
#[derive(Debug)]
pub struct Args {
    pub live: bool,
    pub screenshot: Option<String>,
    /// Timeline position to capture at, seconds.
    pub at: Option<String>,
    pub exit_after: Option<String>,
}

/// The arguments as values.
#[verifier::ext_equal]
pub struct ArgsModel {
    pub live: bool,
    pub screenshot: Option<Seq<char>>,
    pub at: Option<Seq<char>>,
    pub exit_after: Option<Seq<char>>,
}

impl View for Args {
    type V = ArgsModel;

    open spec fn view(&self) -> ArgsModel {
        ArgsModel {
            live: self.live,
            screenshot: text::opt(self.screenshot),
            at: text::opt(self.at),
            exit_after: text::opt(self.exit_after),
        }
    }
}

/// What reading the command line came to.
pub enum Reading {
    Run(ArgsModel),
    Help,
    Unknown(Seq<char>),
}

/// Read the arguments from the `i`-th on. Later arguments override earlier ones; the
/// first request for help or unknown argument ends the reading.
pub open spec fn reading_from(args: Seq<Seq<char>>, i: int, m: ArgsModel) -> Reading
    decreases (if i < args.len() { args.len() - i } else { 0 }),
{
    let value = if i + 1 < args.len() {
        Some(args[i + 1])
    } else {
        None
    };
    if i < 0 || i >= args.len() {
        Reading::Run(m)
    } else if args[i] == "--live"@ {
        reading_from(args, i + 1, ArgsModel { live: true, ..m })
    } else if args[i] == "--screenshot"@ {
        reading_from(args, i + 2, ArgsModel { screenshot: value, ..m })
    } else if args[i] == "--at"@ {
        reading_from(args, i + 2, ArgsModel { at: value, ..m })
    } else if args[i] == "--exit-after"@ {
        reading_from(args, i + 2, ArgsModel { exit_after: value, ..m })
    } else if args[i] == "--help"@ || args[i] == "-h"@ {
        Reading::Help
    } else {
        Reading::Unknown(args[i])
    }
}

/// What the command line says.
pub open spec fn reading(args: Seq<Seq<char>>) -> Reading {
    reading_from(
        args,
        0,
        ArgsModel { live: false, screenshot: None, at: None, exit_after: None },
    )
}

/// What the command line asks for.
#[derive(Debug)]
pub enum Parsed {
    Run(Args),
    Help,
    Unknown(String),
}

impl View for Parsed {
    type V = Reading;

    open spec fn view(&self) -> Reading {
        match self {
            Parsed::Run(args) => Reading::Run(args@),
            Parsed::Help => Reading::Help,
            Parsed::Unknown(a) => Reading::Unknown(a@),
        }
    }
}

/// Read the command line, without the program's name.
pub fn parse_args(args: &Vec<String>) -> (p: Parsed)
    ensures
        p@ == reading(text::texts(args@)),
{
    let ghost all = text::texts(args@);
    let n: usize = args.len();
    let mut out = Args { live: false, screenshot: None, at: None, exit_after: None };
    let mut i: usize = 0;
    while i < n
        invariant
            i <= n == args@.len(),
            all == text::texts(args@),
            reading_from(all, i as int, out@) == reading(all),
        decreases n - i,
    {
        let ghost before = out@;
        let a = args[i].as_str();
        assert(all[i as int] == a@);
        if text::same_text(a, "--live") {
            out.live = true;
            i = i + 1;
        } else if text::same_text(a, "--help") || text::same_text(a, "-h") {
            proof {
                reveal_strlit("--live");
                reveal_strlit("--screenshot");
                reveal_strlit("--at");
                reveal_strlit("--exit-after");
                reveal_strlit("--help");
                reveal_strlit("-h");
                assert("--help"@.len() == 6 && "-h"@.len() == 2);
                assert("--live"@[2] == 'l' && "--help"@[2] == 'h');
            }
            return Parsed::Help;
        } else {
            let value = if n - i > 1 {
                assert(all[i + 1] == args@[i + 1]@);
                Some(String::from_str(args[i + 1].as_str()))
            } else {
                None
            };
            if text::same_text(a, "--screenshot") {
                out.screenshot = value;
            } else if text::same_text(a, "--at") {
                out.at = value;
            } else if text::same_text(a, "--exit-after") {
                out.exit_after = value;
            } else {
                return Parsed::Unknown(String::from_str(a));
            }
            assert(reading_from(all, i as int, before) == reading_from(all, i + 2, out@));
            if n - i > 1 {
                i = i + 2;
            } else {
                assert(reading_from(all, i + 2, out@) == Reading::Run(out@));
                i = n;
                assert(reading_from(all, i as int, out@) == Reading::Run(out@));
            }
        }
    }
    Parsed::Run(out)
}

/// The scripted vehicle passes through its modes in order and never goes back, and
/// is deployed exactly when the deployment is complete.
pub proof fn the_script_only_moves_forward(t: u64, u: u64)
    requires
        t <= u,
    ensures
        mode_of(t).code() <= mode_of(u).code(),
        deployed_by(t) <= deployed_by(u),
        mode_of(t) == Mode::Deployed <==> deployed_by(t) == DEPLOY_LASTS,
{
}

/// The script in seconds: `Safe` for one and a half, `Nominal` to two, `Deploying` to
/// ten, and `Deployed` from there on. The deployment takes up exactly the eight between.
pub proof fn the_script_keeps_its_times(t: u64)
    ensures
        2 * t < 3 * 1_024_000_000 <==> mode_of(t) == Mode::Safe,
        2 * t >= 3 * 1_024_000_000 && t < 2 * 1_024_000_000 <==> mode_of(t) == Mode::Nominal,
        2 * 1_024_000_000 <= t < 10 * 1_024_000_000 <==> mode_of(t) == Mode::Deploying,
        t >= 10 * 1_024_000_000 <==> mode_of(t) == Mode::Deployed,
        mode_of(t) == Mode::Safe || mode_of(t) == Mode::Nominal ==> deployed_by(t) == 0,
        mode_of(t) == Mode::Deploying ==> deployed_by(t) == t - 2 * 1_024_000_000,
        mode_of(t) == Mode::Deployed ==> deployed_by(t) == 8 * 1_024_000_000,
{
}

proof fn lemma_flags_differ()
    ensures
        "--live"@ != "--screenshot"@,
        "--live"@ != "--at"@,
        "--live"@ != "--exit-after"@,
        "--live"@ != "--help"@,
        "--live"@ != "-h"@,
        "--screenshot"@ != "--at"@,
        "--screenshot"@ != "--exit-after"@,
        "--screenshot"@ != "--help"@,
        "--screenshot"@ != "-h"@,
        "--at"@ != "--exit-after"@,
        "--at"@ != "--help"@,
        "--at"@ != "-h"@,
        "--exit-after"@ != "--help"@,
        "--exit-after"@ != "-h"@,
{
    reveal_strlit("--live");
    reveal_strlit("--screenshot");
    reveal_strlit("--at");
    reveal_strlit("--exit-after");
    reveal_strlit("--help");
    reveal_strlit("-h");
    assert("--live"@[2] == 'l');
    assert("--screenshot"@[2] == 's');
    assert("--at"@.len() == 4);
    assert("--exit-after"@[2] == 'e');
    assert("--help"@[2] == 'h');
    assert("-h"@.len() == 2);
    assert("--screenshot"@.len() == 12);
    assert("--exit-after"@.len() == 12);
    assert("--live"@.len() == 6);
    assert("--help"@.len() == 6);
}

/// Each argument does one thing. A flag sets its own field and no other, to the argument
/// behind it where it takes one; help and an unknown argument end the reading; at the end
/// what was gathered is run.
pub proof fn each_argument_does_one_thing(args: Seq<Seq<char>>, i: int, m: ArgsModel)
    requires
        0 <= i <= args.len(),
    ensures
        ({
            let value = if i + 1 < args.len() {
                Some(args[i + 1])
            } else {
                None
            };
            let a = args[i];
            let r = reading_from(args, i, m);
            &&& i == args.len() ==> r == Reading::Run(m)
            &&& i < args.len() && a == "--live"@ ==> r == reading_from(
                args,
                i + 1,
                ArgsModel { live: true, screenshot: m.screenshot, at: m.at, exit_after: m.exit_after },
            )
            &&& i < args.len() && a == "--screenshot"@ ==> r == reading_from(
                args,
                i + 2,
                ArgsModel { live: m.live, screenshot: value, at: m.at, exit_after: m.exit_after },
            )
            &&& i < args.len() && a == "--at"@ ==> r == reading_from(
                args,
                i + 2,
                ArgsModel {
                    live: m.live,
                    screenshot: m.screenshot,
                    at: value,
                    exit_after: m.exit_after,
                },
            )
            &&& i < args.len() && a == "--exit-after"@ ==> r == reading_from(
                args,
                i + 2,
                ArgsModel { live: m.live, screenshot: m.screenshot, at: m.at, exit_after: value },
            )
            &&& i < args.len() && (a == "--help"@ || a == "-h"@) ==> r is Help
            &&& i < args.len() && a != "--live"@ && a != "--screenshot"@ && a != "--at"@ && a
                != "--exit-after"@ && a != "--help"@ && a != "-h"@ ==> r == Reading::Unknown(a)
        }),
{
    lemma_flags_differ();
}

/// The reading starts with the first argument and nothing asked for.
pub proof fn an_empty_command_line_asks_for_nothing(args: Seq<Seq<char>>)
    ensures
        reading(args) == reading_from(
            args,
            0,
            ArgsModel { live: false, screenshot: None, at: None, exit_after: None },
        ),
        args.len() == 0 ==> (reading(args) matches Reading::Run(m) && !m.live && m.screenshot is None
            && m.at is None && m.exit_after is None),
{
}

/// The columns are numbered from left to right and called by their mechanism.
pub proof fn a_column_is_called_by_its_mechanism()
    ensures
        Mapping::Direct.wording() == "1. DIRECT TRANSFORM"@,
        Mapping::ClipSeek.wording() == "2. CLIP AS LOOKUP TABLE"@,
        Mapping::GraphBlend.wording() == "3. ANIMATION GRAPH BLEND"@,
{
}

/// Neighbouring columns differ in one mechanism: the first two in who moves the panels,
/// the last two in who poses the mode.
pub proof fn neighbours_differ_in_one_mechanism()
    ensures
        Mapping::Direct.moves_panels() && !Mapping::ClipSeek.moves_panels(),
        Mapping::Direct.poses_by_graph() == Mapping::ClipSeek.poses_by_graph(),
        !Mapping::ClipSeek.poses_by_graph() && Mapping::GraphBlend.poses_by_graph(),
        Mapping::ClipSeek.moves_panels() == Mapping::GraphBlend.moves_panels(),
{
}

} // verus!
