//! The display's command line.

use vstd::prelude::*;

use crate::link::{DEFAULT_CMD_PORT, DEFAULT_TLM_PORT};
use crate::numeral;
use crate::text;

verus! {

/// An argument the display knows.
#[derive(Clone, Copy, Debug, PartialEq, Eq, Structural)]
pub enum Flag {
    CfsHost,
    CmdPort,
    TlmPort,
    DestIp,
    Offline,
    Screenshot,
    Frames,
    /// A value in seconds or frames per second.
    Measure(Measure),
    Help,
}

/// A setting whose value is a measured quantity rather than a name or a port.
#[derive(Clone, Copy, Debug, PartialEq, Eq, Structural)]
pub enum Measure {
    At,
    From,
    To,
    Fps,
    ExitAfter,
    NoopEvery,
}

/// What an argument means.
pub open spec fn flag_for(a: Seq<char>) -> Option<Flag> {
    if a == "--cfs-host"@ {
        Some(Flag::CfsHost)
    } else if a == "--cmd-port"@ {
        Some(Flag::CmdPort)
    } else if a == "--tlm-port"@ {
        Some(Flag::TlmPort)
    } else if a == "--dest-ip"@ {
        Some(Flag::DestIp)
    } else if a == "--offline"@ {
        Some(Flag::Offline)
    } else if a == "--screenshot"@ {
        Some(Flag::Screenshot)
    } else if a == "--at"@ {
        Some(Flag::Measure(Measure::At))
    } else if a == "--frames"@ {
        Some(Flag::Frames)
    } else if a == "--from"@ {
        Some(Flag::Measure(Measure::From))
    } else if a == "--to"@ {
        Some(Flag::Measure(Measure::To))
    } else if a == "--fps"@ {
        Some(Flag::Measure(Measure::Fps))
    } else if a == "--exit-after"@ {
        Some(Flag::Measure(Measure::ExitAfter))
    } else if a == "--noop-every"@ {
        Some(Flag::Measure(Measure::NoopEvery))
    } else if a == "--help"@ || a == "-h"@ {
        Some(Flag::Help)
    } else {
        None
    }
}

fn flag_of(a: &str) -> (f: Option<Flag>)
    ensures
        f == flag_for(a@),
{
    if text::same_text(a, "--cfs-host") {
        Some(Flag::CfsHost)
    } else if text::same_text(a, "--cmd-port") {
        Some(Flag::CmdPort)
    } else if text::same_text(a, "--tlm-port") {
        Some(Flag::TlmPort)
    } else if text::same_text(a, "--dest-ip") {
        Some(Flag::DestIp)
    } else if text::same_text(a, "--offline") {
        Some(Flag::Offline)
    } else if text::same_text(a, "--screenshot") {
        Some(Flag::Screenshot)
    } else if text::same_text(a, "--at") {
        Some(Flag::Measure(Measure::At))
    } else if text::same_text(a, "--frames") {
        Some(Flag::Frames)
    } else if text::same_text(a, "--from") {
        Some(Flag::Measure(Measure::From))
    } else if text::same_text(a, "--to") {
        Some(Flag::Measure(Measure::To))
    } else if text::same_text(a, "--fps") {
        Some(Flag::Measure(Measure::Fps))
    } else if text::same_text(a, "--exit-after") {
        Some(Flag::Measure(Measure::ExitAfter))
    } else if text::same_text(a, "--noop-every") {
        Some(Flag::Measure(Measure::NoopEvery))
    } else if text::same_text(a, "--help") || text::same_text(a, "-h") {
        Some(Flag::Help)
    } else {
        None
    }
}

/// What the display was asked to do.
#[derive(Debug)]
pub struct Args {
    pub cfs_host: String,
    pub cmd_port: u16,
    pub tlm_port: u16,
    /// This machine as cFS sees it.
    pub dest_ip: String,
    pub offline: bool,
    pub screenshot: Option<String>,
    /// Directory to write a numbered sequence of frames into.
    pub frames: Option<String>,
    /// Measured quantities as they were given, in order, with what followed each.
    pub measures: Vec<(Measure, Option<String>)>,
}

/// The arguments as values.
#[verifier::ext_equal]
pub struct ArgsModel {
    pub cfs_host: Seq<char>,
    pub cmd_port: u16,
    pub tlm_port: u16,
    pub dest_ip: Seq<char>,
    pub offline: bool,
    pub screenshot: Option<Seq<char>>,
    pub frames: Option<Seq<char>>,
    pub measures: Seq<(Measure, Option<Seq<char>>)>,
}

impl View for Args {
    type V = ArgsModel;

    open spec fn view(&self) -> ArgsModel {
        ArgsModel {
            cfs_host: self.cfs_host@,
            cmd_port: self.cmd_port,
            tlm_port: self.tlm_port,
            dest_ip: self.dest_ip@,
            offline: self.offline,
            screenshot: text::opt(self.screenshot),
            frames: text::opt(self.frames),
            measures: self.measures@.map_values(
                |m: (Measure, Option<String>)| (m.0, text::opt(m.1)),
            ),
        }
    }
}

/// A port argument: one that does not read as a port changes nothing.
pub open spec fn port_or(value: Option<Seq<char>>, default: u16) -> u16 {
    match value {
        Some(v) => match numeral::numeral(v, 10, u16::MAX as int) {
            Some(n) => n as u16,
            None => default,
        },
        None => default,
    }
}

/// A name argument: one that is missing is empty.
pub open spec fn or_empty(value: Option<Seq<char>>) -> Seq<char> {
    match value {
        Some(v) => v,
        None => seq![],
    }
}

impl ArgsModel {
    /// No arguments: a cFS on this machine, on the usual ports.
    pub open spec fn defaults() -> ArgsModel {
        ArgsModel {
            cfs_host: "127.0.0.1"@,
            cmd_port: DEFAULT_CMD_PORT,
            tlm_port: DEFAULT_TLM_PORT,
            dest_ip: "127.0.0.1"@,
            offline: false,
            screenshot: None,
            frames: None,
            measures: seq![],
        }
    }

    /// Frames are captured.
    pub open spec fn captures(self) -> bool {
        self.screenshot is Some || self.frames is Some
    }

    /// Where commands go.
    pub open spec fn command_words(self) -> Seq<char> {
        self.cfs_host + ":"@ + text::decimal(self.cmd_port as nat)
    }

    /// With `flag` given, followed by `value`.
    pub open spec fn with(self, flag: Flag, value: Option<Seq<char>>) -> ArgsModel {
        match flag {
            Flag::CfsHost => ArgsModel { cfs_host: or_empty(value), ..self },
            Flag::CmdPort => ArgsModel { cmd_port: port_or(value, self.cmd_port), ..self },
            Flag::TlmPort => ArgsModel { tlm_port: port_or(value, self.tlm_port), ..self },
            Flag::DestIp => ArgsModel { dest_ip: or_empty(value), ..self },
            Flag::Screenshot => ArgsModel { screenshot: value, ..self },
            Flag::Frames => ArgsModel { frames: value, ..self },
            Flag::Measure(m) => ArgsModel { measures: self.measures.push((m, value)), ..self },
            Flag::Offline => ArgsModel { offline: true, ..self },
            Flag::Help => self,
        }
    }
}

/// What reading the command line came to.
pub enum Reading {
    Run(ArgsModel),
    Help,
    /// An argument the display does not know.
    Unknown(Seq<char>),
}

/// What follows argument `i`.
pub open spec fn following(args: Seq<Seq<char>>, i: int) -> Option<Seq<char>> {
    if i + 1 < args.len() {
        Some(args[i + 1])
    } else {
        None
    }
}

/// Read the arguments from the `i`-th on. Later arguments override earlier ones; the
/// first request for help or unknown argument ends the reading.
pub open spec fn reading_from(args: Seq<Seq<char>>, i: int, m: ArgsModel) -> Reading
    decreases (if i < args.len() { args.len() - i } else { 0 }),
{
    if i < 0 || i >= args.len() {
        Reading::Run(m)
    } else {
        match flag_for(args[i]) {
            None => Reading::Unknown(args[i]),
            Some(Flag::Help) => Reading::Help,
            Some(Flag::Offline) => reading_from(args, i + 1, m.with(Flag::Offline, None)),
            Some(flag) => reading_from(args, i + 2, m.with(flag, following(args, i))),
        }
    }
}

/// What the command line says.
pub open spec fn reading(args: Seq<Seq<char>>) -> Reading {
    reading_from(args, 0, ArgsModel::defaults())
}

/// What the command line asks for.
#[derive(Debug)]
pub enum Parsed {
    Run(Args),
    Help,
    Unknown(String),
}

impl View for Parsed {
    type V = Reading;

    open spec fn view(&self) -> Reading {
        match self {
            Parsed::Run(args) => Reading::Run(args@),
            Parsed::Help => Reading::Help,
            Parsed::Unknown(a) => Reading::Unknown(a@),
        }
    }
}

fn copied(value: Option<&str>) -> (s: Option<String>)
    ensures
        text::opt(s) == (match value {
            Some(v) => Some(v@),
            None => None,
        }),
{
    match value {
        Some(v) => Some(String::from_str(v)),
        None => None,
    }
}

fn text_or_empty(value: Option<&str>) -> (s: String)
    ensures
        s@ == (match value {
            Some(v) => v@,
            None => seq![],
        }),
{
    match value {
        Some(v) => String::from_str(v),
        None => String::new(),
    }
}

fn port_from(value: Option<&str>, default: u16) -> (p: u16)
    ensures
        p == port_or(
            match value {
                Some(v) => Some(v@),
                None => None,
            },
            default,
        ),
{
    match value {
        Some(v) => match numeral::parse_decimal(v, u16::MAX as u64) {
            Some(n) => n as u16,
            None => default,
        },
        None => default,
    }
}

impl Args {
    fn new() -> (a: Self)
        ensures
            a@ == ArgsModel::defaults(),
    {
        let a = Args {
            cfs_host: String::from_str("127.0.0.1"),
            cmd_port: DEFAULT_CMD_PORT,
            tlm_port: DEFAULT_TLM_PORT,
            dest_ip: String::from_str("127.0.0.1"),
            offline: false,
            screenshot: None,
            frames: None,
            measures: Vec::new(),
        };
        assert(a@ =~= ArgsModel::defaults());
        a
    }

    fn set(&mut self, flag: Flag, value: Option<&str>)
        ensures
            final(self)@ == old(self)@.with(
                flag,
                match value {
                    Some(v) => Some(v@),
                    None => None,
                },
            ),
    {
        match flag {
            Flag::CfsHost => {
                self.cfs_host = text_or_empty(value);
            },
            Flag::CmdPort => {
                self.cmd_port = port_from(value, self.cmd_port);
            },
            Flag::TlmPort => {
                self.tlm_port = port_from(value, self.tlm_port);
            },
            Flag::DestIp => {
                self.dest_ip = text_or_empty(value);
            },
            Flag::Screenshot => {
                self.screenshot = copied(value);
            },
            Flag::Frames => {
                self.frames = copied(value);
            },
            Flag::Measure(m) => {
                self.measures.push((m, copied(value)));
                assert(self@.measures =~= old(self)@.measures.push(
                    (
                        m,
                        match value {
                            Some(v) => Some(v@),
                            None => None,
                        },
                    ),
                ));
            },
            Flag::Offline => {
                self.offline = true;
            },
            Flag::Help => {},
        }
    }

    /// Is the clock driven by the capture rather than by wall time?
    pub fn capturing(&self) -> (yes: bool)
        ensures
            yes == (self@.screenshot is Some || self@.frames is Some),
            yes == self@.captures(),
    {
        self.screenshot.is_some() || self.frames.is_some()
    }

    /// The link, in words.
    pub fn endpoint(&self) -> (s: String)
        ensures
            s@ == endpoint_words(self@),
    {
        if self.offline {
            String::from_str("offline - no socket")
        } else {
            let mut s = String::from_str("cmd ");
            s.append(self.cfs_host.as_str());
            s.append(":");
            text::push_decimal(&mut s, self.cmd_port as u64);
            s.append("  tlm :");
            text::push_decimal(&mut s, self.tlm_port as u64);
            s.append("  (to_lab -> ");
            s.append(self.dest_ip.as_str());
            s.append(")");
            s
        }
    }

    /// Where commands go.
    pub fn command_address(&self) -> (s: String)
        ensures
            s@ == self@.cfs_host + ":"@ + text::decimal(self@.cmd_port as nat),
            s@ == self@.command_words(),
    {
        let mut s = String::from_str(self.cfs_host.as_str());
        s.append(":");
        text::push_decimal(&mut s, self.cmd_port as u64);
        s
    }
}

/// The link, in words.
pub open spec fn endpoint_words(a: ArgsModel) -> Seq<char> {
    if a.offline {
        "offline - no socket"@
    } else {
        "cmd "@ + a.cfs_host + ":"@ + text::decimal(a.cmd_port as nat) + "  tlm :"@ + text::decimal(
            a.tlm_port as nat,
        ) + "  (to_lab -> "@ + a.dest_ip + ")"@
    }
}

/// Read the command line, without the program's name.
pub fn parse_args(args: &Vec<String>) -> (p: Parsed)
    ensures
        p@ == reading(text::texts(args@)),
{
    let ghost all = text::texts(args@);
    let n: usize = args.len();
    let mut out = Args::new();
    let mut i: usize = 0;
    while i < n
        invariant
            i <= n == args@.len(),
            all == text::texts(args@),
            reading_from(all, i as int, out@) == reading(all),
        decreases n - i,
    {
        assert(all[i as int] == args@[i as int]@);
        let flag = match flag_of(args[i].as_str()) {
            None => {
                return Parsed::Unknown(String::from_str(args[i].as_str()));
            },
            Some(f) => f,
        };
        match flag {
            Flag::Help => {
                return Parsed::Help;
            },
            Flag::Offline => {
                out.set(flag, None);
                i = i + 1;
            },
            _ => {
                if n - i > 1 {
                    assert(all[i + 1] == args@[i + 1]@);
                    out.set(flag, Some(args[i + 1].as_str()));
                    i = i + 2;
                } else {
                    let ghost before = out@;
                    out.set(flag, None);
                    assert(reading_from(all, i as int, before) == reading_from(all, i + 2, out@));
                    assert(reading_from(all, i + 2, out@) == Reading::Run(out@));
                    i = n;
                    assert(reading_from(all, i as int, out@) == Reading::Run(out@));
                }
            },
        }
    }
    Parsed::Run(out)
}

/// Everything from the `i`-th argument on is known, is no request for help, and has
/// the value it needs.
pub open spec fn complete_from(args: Seq<Seq<char>>, i: int) -> bool
    decreases (if i < args.len() { args.len() - i } else { 0 }),
{
    if i < 0 || i >= args.len() {
        i == args.len()
    } else {
        match flag_for(args[i]) {
            None => false,
            Some(Flag::Help) => false,
            Some(Flag::Offline) => complete_from(args, i + 1),
            Some(_) => complete_from(args, i + 2),
        }
    }
}

/// The first unknown argument is reported, whatever complete arguments stand before
/// it and whatever follows it.
pub proof fn an_unknown_argument_is_named(
    before: Seq<Seq<char>>,
    a: Seq<char>,
    rest: Seq<Seq<char>>,
)
    requires
        complete_from(before, 0),
        flag_for(a) is None,
    ensures
        reading(before + seq![a] + rest) == Reading::Unknown(a),
{
    lemma_reading_passes(before, a, rest, 0, ArgsModel::defaults());
}

proof fn lemma_reading_passes(
    before: Seq<Seq<char>>,
    a: Seq<char>,
    rest: Seq<Seq<char>>,
    i: int,
    m: ArgsModel,
)
    requires
        0 <= i <= before.len(),
        complete_from(before, i),
        flag_for(a) is None,
    ensures
        reading_from(before + seq![a] + rest, i, m) == Reading::Unknown(a),
    decreases before.len() - i,
{
    let args = before + seq![a] + rest;
    if i == before.len() {
        assert(args[i] == a);
    } else {
        assert(args[i] == before[i]);
        match flag_for(before[i]) {
            None => {},
            Some(Flag::Help) => {},
            Some(Flag::Offline) => {
                lemma_reading_passes(before, a, rest, i + 1, m.with(Flag::Offline, None));
            },
            Some(flag) => {
                assert(complete_from(before, i + 2));
                lemma_reading_passes(
                    before,
                    a,
                    rest,
                    i + 2,
                    m.with(flag, following(args, i)),
                );
            },
        }
    }
}

/// How each name is told from the others: by its length and one character.
proof fn lemma_names()
    ensures
        "--cfs-host"@.len() == 10 && "--cfs-host"@[2] == 'c' && "--cfs-host"@[3] == 'f',
        "--cmd-port"@.len() == 10 && "--cmd-port"@[2] == 'c' && "--cmd-port"@[3] == 'm',
        "--tlm-port"@.len() == 10 && "--tlm-port"@[2] == 't' && "--tlm-port"@[3] == 'l',
        "--dest-ip"@.len() == 9 && "--dest-ip"@[2] == 'd' && "--dest-ip"@[3] == 'e',
        "--offline"@.len() == 9 && "--offline"@[2] == 'o' && "--offline"@[3] == 'f',
        "--screenshot"@.len() == 12 && "--screenshot"@[2] == 's' && "--screenshot"@[3] == 'c',
        "--at"@.len() == 4 && "--at"@[2] == 'a' && "--at"@[3] == 't',
        "--frames"@.len() == 8 && "--frames"@[2] == 'f' && "--frames"@[3] == 'r',
        "--from"@.len() == 6 && "--from"@[2] == 'f' && "--from"@[3] == 'r',
        "--to"@.len() == 4 && "--to"@[2] == 't' && "--to"@[3] == 'o',
        "--fps"@.len() == 5 && "--fps"@[2] == 'f' && "--fps"@[3] == 'p',
        "--exit-after"@.len() == 12 && "--exit-after"@[2] == 'e' && "--exit-after"@[3] == 'x',
        "--noop-every"@.len() == 12 && "--noop-every"@[2] == 'n' && "--noop-every"@[3] == 'o',
        "--help"@.len() == 6 && "--help"@[2] == 'h' && "--help"@[3] == 'e',
        "-h"@.len() == 2,
{
    reveal_strlit("--cfs-host");
    reveal_strlit("--cmd-port");
    reveal_strlit("--tlm-port");
    reveal_strlit("--dest-ip");
    reveal_strlit("--offline");
    reveal_strlit("--screenshot");
    reveal_strlit("--at");
    reveal_strlit("--frames");
    reveal_strlit("--from");
    reveal_strlit("--to");
    reveal_strlit("--fps");
    reveal_strlit("--exit-after");
    reveal_strlit("--noop-every");
    reveal_strlit("--help");
    reveal_strlit("-h");
}

/// Each name means one flag, and no other name means any.
pub proof fn a_flag_goes_by_its_name(a: Seq<char>)
    ensures
        flag_for("--cfs-host"@) == Some(Flag::CfsHost),
        flag_for("--cmd-port"@) == Some(Flag::CmdPort),
        flag_for("--tlm-port"@) == Some(Flag::TlmPort),
        flag_for("--dest-ip"@) == Some(Flag::DestIp),
        flag_for("--offline"@) == Some(Flag::Offline),
        flag_for("--screenshot"@) == Some(Flag::Screenshot),
        flag_for("--at"@) == Some(Flag::Measure(Measure::At)),
        flag_for("--frames"@) == Some(Flag::Frames),
        flag_for("--from"@) == Some(Flag::Measure(Measure::From)),
        flag_for("--to"@) == Some(Flag::Measure(Measure::To)),
        flag_for("--fps"@) == Some(Flag::Measure(Measure::Fps)),
        flag_for("--exit-after"@) == Some(Flag::Measure(Measure::ExitAfter)),
        flag_for("--noop-every"@) == Some(Flag::Measure(Measure::NoopEvery)),
        flag_for("--help"@) == Some(Flag::Help),
        flag_for("-h"@) == Some(Flag::Help),
        flag_for(a) is Some ==> a == "--cfs-host"@ || a == "--cmd-port"@ || a == "--tlm-port"@ || a == "--dest-ip"@ || a == "--offline"@ || a == "--screenshot"@ || a == "--at"@ || a == "--frames"@ || a == "--from"@ || a == "--to"@ || a == "--fps"@ || a == "--exit-after"@ || a == "--noop-every"@ || a == "--help"@ || a == "-h"@,
{
    lemma_names();
}

/// A flag changes its own setting and no other: a name to what follows it, empty where
/// nothing does; a port to what follows where that reads as one, and not at all
/// otherwise; a measure by one more entry at the end.
pub proof fn a_flag_changes_its_own_setting(m: ArgsModel, flag: Flag, value: Option<Seq<char>>)
    ensures
        ({
            let after = m.with(flag, value);
            let name = match value {
                Some(v) => v,
                None => Seq::empty(),
            };
            let port = match value {
                Some(v) => numeral::numeral(v, 10, 65535),
                None => None,
            };
            &&& after.cfs_host == (if flag is CfsHost {
                name
            } else {
                m.cfs_host
            })
            &&& after.dest_ip == (if flag is DestIp {
                name
            } else {
                m.dest_ip
            })
            &&& after.cmd_port == (if flag is CmdPort && port is Some {
                port->0
            } else {
                m.cmd_port as int
            })
            &&& after.tlm_port == (if flag is TlmPort && port is Some {
                port->0
            } else {
                m.tlm_port as int
            })
            &&& after.offline == (flag is Offline || m.offline)
            &&& after.screenshot == (if flag is Screenshot {
                value
            } else {
                m.screenshot
            })
            &&& after.frames == (if flag is Frames {
                value
            } else {
                m.frames
            })
            &&& after.measures == (if flag is Measure {
                m.measures.push((flag->Measure_0, value))
            } else {
                m.measures
            })
        }),
{
    assert(or_empty(value) =~= match value {
        Some(v) => v,
        None => Seq::empty(),
    });
    if value is Some {
        numeral::lemma_numeral_range(value->0, 10, 65535);
    }
}

/// The reading takes one argument at a time, with the one behind it for every flag but
/// `--offline` and the requests for help, and ends with what was gathered.
pub proof fn the_reading_goes_flag_by_flag(args: Seq<Seq<char>>, i: int, m: ArgsModel)
    requires
        0 <= i <= args.len(),
    ensures
        ({
            let r = reading_from(args, i, m);
            let value = if i + 1 < args.len() {
                Some(args[i + 1])
            } else {
                None
            };
            let a = args[i];
            &&& i == args.len() ==> r == Reading::Run(m)
            &&& i < args.len() && flag_for(a) is None ==> r == Reading::Unknown(a)
            &&& i < args.len() && (a == "--help"@ || a == "-h"@) ==> r is Help
            &&& i < args.len() && a == "--offline"@ ==> r == reading_from(
                args,
                i + 1,
                ArgsModel { offline: true, ..m },
            )
            &&& i < args.len() && (flag_for(a) matches Some(f) && !(f is Help) && !(
            f is Offline)) ==> r == reading_from(args, i + 2, m.with(flag_for(a)->0, value))
            &&& reading(args) == reading_from(args, 0, ArgsModel::defaults())
        }),
{
    lemma_names();
}

/// Without arguments the display talks to a cFS on this machine, commands on port 1234
/// and telemetry on 2234.
pub proof fn the_display_talks_to_this_machine()
    ensures
        ({
            let m = ArgsModel::defaults();
            &&& m.cfs_host == "127.0.0.1"@
            &&& m.dest_ip == "127.0.0.1"@
            &&& m.cmd_port == 1234
            &&& m.tlm_port == 2234
            &&& !m.offline
            &&& m.screenshot is None
            &&& m.frames is None
            &&& m.measures.len() == 0
        }),
{
}

/// The endpoint reads as where commands go, where telemetry is heard and where it is
/// sent, or says that there is no socket.
pub proof fn the_endpoint_reads_as_it_is(a: ArgsModel)
    ensures
        a.offline ==> endpoint_words(a) == "offline - no socket"@,
        !a.offline ==> endpoint_words(a) == "cmd "@ + a.cfs_host + ":"@ + text::decimal(
            a.cmd_port as nat,
        ) + "  tlm :"@ + text::decimal(a.tlm_port as nat) + "  (to_lab -> "@ + a.dest_ip + ")"@,
{
}

/// Commands go to the host and port given; the clock is the capture's where a screenshot
/// or a sequence of frames was asked for, and only there.
pub proof fn the_command_line_decides(m: ArgsModel)
    ensures
        m.command_words() == m.cfs_host + ":"@ + text::decimal(m.cmd_port as nat),
        m.captures() <==> !(m.screenshot is None && m.frames is None),
{
}

} // verus!
