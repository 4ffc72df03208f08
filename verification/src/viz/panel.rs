//! The telemetry side panel.
//!
//! An animated view looks equally convincing whether the data behind it is a live
//! downlink, a two-minute-old frozen sample, or a generator. So the panel answers
//! three questions: where did this number come from, how old is it, and did my
//! command do anything.

use vstd::prelude::*;

use crate::clock::TICKS_PER_SECOND;
use crate::ground::{Housekeeping, LinkHealth};
use crate::model::buffer::{Freshness, MEAN_PARTS};
use crate::model::state::Mode;
use crate::msg::hk::{CiLabHk, SampleAppHk, ToLabHk};
use crate::msg::rust_app::RustAppHk;
use crate::text;
use crate::viz::command_loop::CommandLoop;
use crate::viz::keys;
use crate::viz::sources::{Pipeline, Source, Sources};

verus! {

/// Everything the panel prints, gathered in one place so the text is a function of
/// it alone. Measured angles come as the decimal text to show.
pub struct PanelData<'a> {
    pub endpoint: &'a str,
    pub pipeline: Pipeline,
    pub sources: Sources,
    pub mode: Mode,
    /// Array angle in degrees within one turn, one decimal place.
    pub array_deg: &'a str,
    /// Deployment progress from 0 to 1, three decimal places.
    pub deploy_progress: &'a str,
    pub freshness: Freshness,
    pub health: &'a LinkHealth,
    pub hk: &'a Housekeeping,
    pub commands: &'a CommandLoop,
    /// Inner hinge angle in degrees as drawn, two decimal places.
    pub drawn_hinge_deg: Option<&'a str>,
    pub rig_error: Option<&'a str>,
}

/// An age in ticks as seconds with one decimal place.
pub open spec fn age_text(age: u64) -> Seq<char> {
    text::tenths(text::nearest(10 * age as nat, TICKS_PER_SECOND as nat))
}

/// How a freshness reads to an operator.
pub open spec fn freshness_words(f: Freshness) -> Seq<char> {
    match f {
        Freshness::NoData => "NO DATA - nothing decoded yet"@,
        Freshness::Warming => "WARMING - buffering before playback"@,
        Freshness::Live => "LIVE - interpolating between real samples"@,
        Freshness::Holding { age } => "HOLDING "@ + age_text(age)
            + "s - last known value, not extrapolated"@,
        Freshness::Stale { age } => "STALE "@ + age_text(age)
            + "s - the vehicle may have moved since"@,
    }
}

/// How a freshness should read to an operator.
///
/// Spelled out because these are the words someone makes a decision on.
pub fn freshness_line(freshness: Freshness) -> (s: String)
    ensures
        s@ == freshness_words(freshness),
{
    match freshness {
        Freshness::NoData => String::from_str("NO DATA - nothing decoded yet"),
        Freshness::Warming => String::from_str("WARMING - buffering before playback"),
        Freshness::Live => String::from_str("LIVE - interpolating between real samples"),
        Freshness::Holding { age } => {
            let mut s = String::from_str("HOLDING ");
            push_age(&mut s, age);
            s.append("s - last known value, not extrapolated");
            s
        },
        Freshness::Stale { age } => {
            let mut s = String::from_str("STALE ");
            push_age(&mut s, age);
            s.append("s - the vehicle may have moved since");
            s
        },
    }
}

fn push_age(out: &mut String, age: u64)
    ensures
        final(out)@ == old(out)@ + age_text(age),
{
    let t: u128 = text::round_to_nearest(10 * age as u128, TICKS_PER_SECOND as u128);
    text::push_tenths(out, t);
}

/// What the panel says about playback.
pub open spec fn playback_words(pipeline: Pipeline, f: Freshness) -> Seq<char> {
    match pipeline {
        Pipeline::Derived =>
        "LIVE (derived) - housekeeping steps at the scheduler rate, not interpolated"@,
        Pipeline::Offline => "OFFLINE - computed for this instant, no samples to play back"@,
        Pipeline::Waiting => freshness_words(Freshness::NoData),
        _ => freshness_words(f),
    }
}

/// What to say about playback, which is not the same question as freshness.
///
/// Freshness describes the *vehicle-state* stream. Signals derived from
/// housekeeping step once per scheduler tick and nothing interpolates them, and an
/// offline state is computed for the frame it is shown in; claiming interpolation
/// for either would be untrue.
pub fn playback_line(pipeline: Pipeline, freshness: Freshness) -> (s: String)
    ensures
        s@ == playback_words(pipeline, freshness),
{
    match pipeline {
        Pipeline::Derived => String::from_str(
            "LIVE (derived) - housekeeping steps at the scheduler rate, not interpolated",
        ),
        Pipeline::Offline => String::from_str(
            "OFFLINE - computed for this instant, no samples to play back",
        ),
        Pipeline::Waiting => freshness_line(Freshness::NoData),
        _ => freshness_line(freshness),
    }
}

/// The rate of the vehicle-state stream, from the mean interval between its samples.
pub open spec fn rate_words(mean_interval: Option<u128>) -> Seq<char> {
    match mean_interval {
        Some(m) => if m > 0 {
            text::tenths(text::nearest((10 * TICKS_PER_SECOND * MEAN_PARTS) as nat, m as nat))
                + " Hz"@
        } else {
            "-- Hz"@
        },
        None => "-- Hz"@,
    }
}

fn rate_text(mean_interval: Option<u128>) -> (s: String)
    ensures
        s@ == rate_words(mean_interval),
{
    match mean_interval {
        Some(m) => {
            if m > 0 {
                let mut s = String::new();
                let t: u128 = text::round_to_nearest(
                    10 * TICKS_PER_SECOND as u128 * MEAN_PARTS,
                    m,
                );
                text::push_tenths(&mut s, t);
                assert(s@ =~= text::tenths(t as nat));
                s.append(" Hz");
                s
            } else {
                String::from_str("-- Hz")
            }
        },
        None => String::from_str("-- Hz"),
    }
}

/// The link: what arrived, and how it plays back.
pub open spec fn link_section(d: PanelData<'_>) -> Seq<char> {
    let h = d.health;
    "LINK   "@ + d.endpoint@ + "\n  rx "@ + text::decimal(h.packets_received as nat)
        + "  dropped "@ + text::decimal(h.packets_dropped as nat) + "  parse err "@
        + text::decimal(h.parse_errors as nat) + "  seq gaps "@ + text::decimal(
        h.sequence_gaps as nat,
    ) + "\n  ignored "@ + text::decimal(h.packets_ignored as nat) + "  decode fail "@
        + text::decimal(h.decode_failures as nat) + "  cmds sent "@ + text::decimal(
        h.commands_sent as nat,
    ) + "\n  vehicle-state stream: rate "@ + rate_words(h.mean_interval) + "  buffered "@
        + text::decimal(h.buffered_samples as nat) + "  inserted "@ + text::decimal(
        h.buffer.inserted as nat,
    ) + "  reordered "@ + text::decimal(h.buffer.reordered as nat) + "  resyncs "@
        + text::decimal(h.buffer.resyncs as nat) + "\n  "@ + playback_words(
        d.pipeline,
        d.freshness,
    ) + "\n\n"@
}

fn link_text(d: &PanelData<'_>) -> (out: String)
    ensures
        out@ == link_section(*d),
{
    let h = d.health;
    let mut out = String::from_str("LINK   ");
    out.append(d.endpoint);
    out.append("\n  rx ");
    text::push_decimal(&mut out, h.packets_received);
    out.append("  dropped ");
    text::push_decimal(&mut out, h.packets_dropped);
    out.append("  parse err ");
    text::push_decimal(&mut out, h.parse_errors);
    out.append("  seq gaps ");
    text::push_decimal(&mut out, h.sequence_gaps);
    out.append("\n  ignored ");
    text::push_decimal(&mut out, h.packets_ignored);
    out.append("  decode fail ");
    text::push_decimal(&mut out, h.decode_failures);
    out.append("  cmds sent ");
    text::push_decimal(&mut out, h.commands_sent);
    out.append("\n  vehicle-state stream: rate ");
    let rate = rate_text(h.mean_interval);
    out.append(rate.as_str());
    out.append("  buffered ");
    text::push_decimal(&mut out, h.buffered_samples as u64);
    out.append("  inserted ");
    text::push_decimal(&mut out, h.buffer.inserted);
    out.append("  reordered ");
    text::push_decimal(&mut out, h.buffer.reordered);
    out.append("  resyncs ");
    text::push_decimal(&mut out, h.buffer.resyncs);
    out.append("\n  ");
    let playback = playback_line(d.pipeline, d.freshness);
    out.append(playback.as_str());
    out.append("\n\n");
    out
}

/// A counter in its column.
pub open spec fn counter(n: u8) -> Seq<char> {
    text::right_aligned(text::decimal(n as nat), 3)
}

fn push_counter(out: &mut String, n: u8)
    ensures
        final(out)@ == old(out)@ + counter(n),
{
    text::push_decimal_right_aligned(out, n as u64, 3);
}

/// An application never heard from shows dashes, not zeroes: an operator reading
/// "cmd 0" concludes that it is idle, not that it is absent.
pub open spec fn sample_app_line(hk: Option<SampleAppHk>) -> Seq<char> {
    match hk {
        Some(v) => "  SAMPLE_APP  cmd "@ + counter(v.command_counter) + "  err "@ + counter(
            v.command_error_counter,
        ) + "\n"@,
        None => "  SAMPLE_APP  --\n"@,
    }
}

fn sample_app_text(hk: Option<SampleAppHk>) -> (s: String)
    ensures
        s@ == sample_app_line(hk),
{
    match hk {
        Some(v) => {
            let mut s = String::from_str("  SAMPLE_APP  cmd ");
            push_counter(&mut s, v.command_counter);
            s.append("  err ");
            push_counter(&mut s, v.command_error_counter);
            s.append("\n");
            s
        },
        None => String::from_str("  SAMPLE_APP  --\n"),
    }
}

pub open spec fn to_lab_line(hk: Option<ToLabHk>) -> Seq<char> {
    match hk {
        Some(v) => "  TO_LAB      cmd "@ + counter(v.command_counter) + "  err "@ + counter(
            v.command_error_counter,
        ) + "\n"@,
        None => "  TO_LAB      --\n"@,
    }
}

fn to_lab_text(hk: Option<ToLabHk>) -> (s: String)
    ensures
        s@ == to_lab_line(hk),
{
    match hk {
        Some(v) => {
            let mut s = String::from_str("  TO_LAB      cmd ");
            push_counter(&mut s, v.command_counter);
            s.append("  err ");
            push_counter(&mut s, v.command_error_counter);
            s.append("\n");
            s
        },
        None => String::from_str("  TO_LAB      --\n"),
    }
}

pub open spec fn ci_lab_line(hk: Option<CiLabHk>) -> Seq<char> {
    match hk {
        Some(v) => "  CI_LAB      cmd "@ + counter(v.command_counter) + "  err "@ + counter(
            v.command_error_counter,
        ) + "  ingest "@ + text::decimal(v.ingest_packets as nat) + "/"@ + text::decimal(
            v.ingest_errors as nat,
        ) + "  socket "@ + text::decimal(v.socket_connected as nat) + "  cksum "@ + (
        if v.enable_checksums == 0 {
            "off"@
        } else {
            "on"@
        }) + "\n"@,
        None => "  CI_LAB      --\n"@,
    }
}

fn ci_lab_text(hk: Option<CiLabHk>) -> (s: String)
    ensures
        s@ == ci_lab_line(hk),
{
    match hk {
        Some(v) => {
            let mut s = String::from_str("  CI_LAB      cmd ");
            push_counter(&mut s, v.command_counter);
            s.append("  err ");
            push_counter(&mut s, v.command_error_counter);
            s.append("  ingest ");
            text::push_decimal(&mut s, v.ingest_packets as u64);
            s.append("/");
            text::push_decimal(&mut s, v.ingest_errors as u64);
            s.append("  socket ");
            text::push_decimal(&mut s, v.socket_connected as u64);
            s.append("  cksum ");
            if v.enable_checksums == 0 {
                s.append("off");
            } else {
                s.append("on");
            }
            s.append("\n");
            s
        },
        None => String::from_str("  CI_LAB      --\n"),
    }
}

pub open spec fn rust_app_line(hk: Option<RustAppHk>) -> Seq<char> {
    match hk {
        Some(v) => "  RUST_APP    cmd "@ + counter(v.command_counter) + "  err "@ + counter(
            v.command_error_counter,
        ) + "  cycles "@ + text::decimal(v.control_cycles as nat) + "  targets "@ + text::decimal(
            v.targets_commanded as nat,
        ) + "\n"@,
        None => "  RUST_APP -- (not loaded: no vehicle dynamics on this bus)\n"@,
    }
}

fn rust_app_text(hk: Option<RustAppHk>) -> (s: String)
    ensures
        s@ == rust_app_line(hk),
{
    match hk {
        Some(v) => {
            let mut s = String::from_str("  RUST_APP    cmd ");
            push_counter(&mut s, v.command_counter);
            s.append("  err ");
            push_counter(&mut s, v.command_error_counter);
            s.append("  cycles ");
            text::push_decimal(&mut s, v.control_cycles as u64);
            s.append("  targets ");
            text::push_decimal(&mut s, v.targets_commanded as u64);
            s.append("\n");
            s
        },
        None => String::from_str("  RUST_APP -- (not loaded: no vehicle dynamics on this bus)\n"),
    }
}

pub open spec fn mission_time_line(last: Option<i64>) -> Seq<char> {
    match last {
        Some(t) => "  mission time "@ + text::seconds(t as int) + "s since 1980-01-01\n\n"@,
        None => "  mission time --\n\n"@,
    }
}

fn mission_time_text(last: Option<i64>) -> (s: String)
    ensures
        s@ == mission_time_line(last),
{
    match last {
        Some(t) => {
            let mut s = String::from_str("  mission time ");
            text::push_seconds(&mut s, t as i128);
            s.append("s since 1980-01-01\n\n");
            s
        },
        None => String::from_str("  mission time --\n\n"),
    }
}

/// The flight software: its own housekeeping.
pub open spec fn flight_section(hk: Housekeeping) -> Seq<char> {
    "FLIGHT SOFTWARE  (real cFE housekeeping)\n"@ + sample_app_line(hk.sample_app) + to_lab_line(
        hk.to_lab,
    ) + ci_lab_line(hk.ci_lab) + rust_app_line(hk.rust_app) + mission_time_line(hk.last_time)
}

fn flight_text(hk: &Housekeeping) -> (out: String)
    ensures
        out@ == flight_section(*hk),
{
    let mut out = String::from_str("FLIGHT SOFTWARE  (real cFE housekeeping)\n");
    let sample_app = sample_app_text(hk.sample_app);
    out.append(sample_app.as_str());
    let to_lab = to_lab_text(hk.to_lab);
    out.append(to_lab.as_str());
    let ci_lab = ci_lab_text(hk.ci_lab);
    out.append(ci_lab.as_str());
    let rust_app = rust_app_text(hk.rust_app);
    out.append(rust_app.as_str());
    let mission_time = mission_time_text(hk.last_time);
    out.append(mission_time.as_str());
    out
}

/// One signal: its name, its source, and the mechanism that shows it.
pub open spec fn signal_line(row: (&'static str, Source, &'static str)) -> Seq<char> {
    "  "@ + text::left_aligned(row.0@, 12) + " "@ + text::left_aligned(row.1.wording(), 34)
        + " -> "@ + row.2@ + "\n"@
}

/// The first `n` signals, in order.
pub open spec fn signal_lines(
    rows: Seq<(&'static str, Source, &'static str)>,
    n: int,
) -> Seq<char>
    decreases n,
{
    if n <= 0 {
        seq![]
    } else {
        signal_lines(rows, n - 1) + signal_line(rows[n - 1])
    }
}

fn signals_text(sources: &Sources) -> (out: String)
    ensures
        out@ == signal_lines(sources.table(), 5),
{
    let rows = sources.rows();
    let mut out = String::new();
    let mut i: usize = 0;
    assert(out@ =~= signal_lines(sources.table(), 0));
    while i < 5
        invariant
            i <= 5,
            rows@ == sources.table(),
            out@ == signal_lines(sources.table(), i as int),
        decreases 5 - i,
    {
        let row = rows[i];
        let mut line = String::from_str("  ");
        text::push_left_aligned(&mut line, row.0, 12);
        line.append(" ");
        text::push_left_aligned(&mut line, row.1.label(), 34);
        line.append(" -> ");
        line.append(row.2);
        line.append("\n");
        out.append(line.as_str());
        i = i + 1;
    }
    out
}

/// The vehicle: where each signal came from, and what it reads.
pub open spec fn vehicle_section(d: PanelData<'_>) -> Seq<char> {
    "VEHICLE  "@ + d.pipeline.wording() + "\n"@ + signal_lines(d.sources.table(), 5) + "  array "@
        + text::right_aligned(d.array_deg@, 6) + "deg   deploy "@ + d.deploy_progress@
        + "   mode "@ + d.mode.title() + "\n  inner hinge as drawn "@ + (
    match d.drawn_hinge_deg {
        Some(deg) => text::right_aligned(deg@, 7) + "deg"@,
        None => "--"@,
    }) + "\n\n"@
}

fn hinge_text(drawn: Option<&str>) -> (s: String)
    ensures
        s@ == (match drawn {
            Some(deg) => text::right_aligned(deg@, 7) + "deg"@,
            None => "--"@,
        }),
{
    match drawn {
        Some(deg) => {
            let mut s = String::new();
            text::push_right_aligned(&mut s, deg, 7);
            assert(s@ =~= text::right_aligned(deg@, 7));
            s.append("deg");
            s
        },
        None => String::from_str("--"),
    }
}

fn vehicle_text(d: &PanelData<'_>) -> (out: String)
    ensures
        out@ == vehicle_section(*d),
{
    let mut out = String::from_str("VEHICLE  ");
    out.append(d.pipeline.label());
    out.append("\n");
    let signals = signals_text(&d.sources);
    out.append(signals.as_str());
    out.append("  array ");
    text::push_right_aligned(&mut out, d.array_deg, 6);
    out.append("deg   deploy ");
    out.append(d.deploy_progress);
    out.append("   mode ");
    out.append(d.mode.name());
    out.append("\n  inner hinge as drawn ");
    let hinge = hinge_text(d.drawn_hinge_deg);
    out.append(hinge.as_str());
    out.append("\n\n");
    out
}

/// The labels of the first `n` keys that fly the vehicle.
pub open spec fn key_lines(n: int) -> Seq<char>
    decreases n,
{
    if n <= 0 {
        seq![]
    } else {
        key_lines(n - 1) + ("  "@ + keys::vehicle_table()[n - 1].2@ + "\n"@)
    }
}

fn keys_text() -> (out: String)
    ensures
        out@ == key_lines(6),
{
    let table = keys::vehicle_keys();
    let mut out = String::new();
    let mut i: usize = 0;
    assert(out@ =~= key_lines(0));
    while i < 6
        invariant
            i <= 6,
            table@ == keys::vehicle_table(),
            out@ == key_lines(i as int),
        decreases 6 - i,
    {
        let mut line = String::from_str("  ");
        line.append(table[i].2);
        line.append("\n");
        out.append(line.as_str());
        i = i + 1;
    }
    out
}

/// The command path: the keys, and whether the last command did anything.
pub open spec fn command_section(commands: CommandLoop) -> Seq<char> {
    "COMMAND  (real packets to ci_lab)\n"@
        + "  [N] SAMPLE_APP NOOP      [R] SAMPLE_APP RESET_COUNTERS\n"@ + key_lines(6) + "  "@
        + commands.line() + "\n"@
}

fn command_text(commands: &CommandLoop) -> (out: String)
    ensures
        out@ == command_section(*commands),
{
    let mut out = String::from_str("COMMAND  (real packets to ci_lab)\n");
    out.append("  [N] SAMPLE_APP NOOP      [R] SAMPLE_APP RESET_COUNTERS\n");
    let labels = keys_text();
    out.append(labels.as_str());
    out.append("  ");
    let summary = commands.summary();
    out.append(summary.as_str());
    out.append("\n");
    out
}

/// A broken rig leads the panel.
pub open spec fn banner(rig_error: Option<&str>) -> Seq<char> {
    match rig_error {
        Some(err) => "!! "@ + err@ + "\n\n"@,
        None => ""@,
    }
}

fn banner_text(rig_error: Option<&str>) -> (s: String)
    ensures
        s@ == banner(rig_error),
{
    match rig_error {
        Some(err) => {
            let mut s = String::from_str("!! ");
            s.append(err);
            s.append("\n\n");
            s
        },
        None => String::from_str(""),
    }
}

/// The whole panel.
pub open spec fn rendered(d: PanelData<'_>) -> Seq<char> {
    banner(d.rig_error) + link_section(d) + flight_section(*d.hk) + vehicle_section(d)
        + command_section(*d.commands)
}

pub fn render(data: &PanelData<'_>) -> (out: String)
    ensures
        out@ == rendered(*data),
{
    let mut out = banner_text(data.rig_error);
    let link = link_text(data);
    out.append(link.as_str());
    let flight = flight_text(data.hk);
    out.append(flight.as_str());
    let vehicle = vehicle_text(data);
    out.append(vehicle.as_str());
    let command = command_text(data.commands);
    out.append(command.as_str());
    out
}

/// Only a vehicle-state stream can read as interpolating: derived, offline and
/// waiting pipelines say the same thing whatever the stream does.
pub proof fn only_a_vehicle_stream_speaks_of_freshness(p: Pipeline, f: Freshness, g: Freshness)
    requires
        p == Pipeline::Derived || p == Pipeline::Offline || p == Pipeline::Waiting,
    ensures
        playback_words(p, f) == playback_words(p, g),
{
}

/// Words for old data never begin like the words for live data.
pub proof fn held_and_stale_do_not_read_like_live(f: Freshness)
    requires
        !(f is Live),
    ensures
        !text::begins(freshness_words(f), "LIVE"@),
{
    reveal_strlit("LIVE");
    reveal_strlit("NO DATA - nothing decoded yet");
    reveal_strlit("WARMING - buffering before playback");
    reveal_strlit("HOLDING ");
    reveal_strlit("STALE ");
    let w = freshness_words(f);
    if text::begins(w, "LIVE"@) {
        assert(w.take(4)[0] == "LIVE"@[0]);
        assert(w[0] == 'L');
    }
}

/// Captions, each with what it stands for behind it.
pub open spec fn captioned(rows: Seq<(Seq<char>, Seq<char>)>) -> Seq<char>
    decreases rows.len(),
{
    if rows.len() == 0 {
        seq![]
    } else {
        captioned(rows.drop_last()) + rows.last().0 + rows.last().1
    }
}

proof fn lemma_captioned(
    rows: Seq<(Seq<char>, Seq<char>)>,
    caption: Seq<char>,
    value: Seq<char>,
)
    ensures
        captioned(rows.push((caption, value))) == captioned(rows) + caption + value,
{
    assert(rows.push((caption, value)).drop_last() =~= rows);
}

/// What the link section shows, in order, under which captions.
pub open spec fn link_rows(d: PanelData<'_>) -> Seq<(Seq<char>, Seq<char>)> {
    let h = d.health;
    seq![
        ("LINK   "@, d.endpoint@),
        ("\n  rx "@, text::decimal(h.packets_received as nat)),
        ("  dropped "@, text::decimal(h.packets_dropped as nat)),
        ("  parse err "@, text::decimal(h.parse_errors as nat)),
        ("  seq gaps "@, text::decimal(h.sequence_gaps as nat)),
        ("\n  ignored "@, text::decimal(h.packets_ignored as nat)),
        ("  decode fail "@, text::decimal(h.decode_failures as nat)),
        ("  cmds sent "@, text::decimal(h.commands_sent as nat)),
        ("\n  vehicle-state stream: rate "@, rate_words(h.mean_interval)),
        ("  buffered "@, text::decimal(h.buffered_samples as nat)),
        ("  inserted "@, text::decimal(h.buffer.inserted as nat)),
        ("  reordered "@, text::decimal(h.buffer.reordered as nat)),
        ("  resyncs "@, text::decimal(h.buffer.resyncs as nat)),
        ("\n  "@, playback_words(d.pipeline, d.freshness)),
    ]
}

/// The link section shows each counter behind its own caption.
pub proof fn each_link_counter_has_its_caption(d: PanelData<'_>)
    ensures
        link_section(d) == captioned(link_rows(d)) + "\n\n"@,
{
    let h = d.health;
    let none = Seq::<(Seq<char>, Seq<char>)>::empty();
    let r1 = none.push(("LINK   "@, d.endpoint@));
    let r2 = r1.push(("\n  rx "@, text::decimal(h.packets_received as nat)));
    let r3 = r2.push(("  dropped "@, text::decimal(h.packets_dropped as nat)));
    let r4 = r3.push(("  parse err "@, text::decimal(h.parse_errors as nat)));
    let r5 = r4.push(("  seq gaps "@, text::decimal(h.sequence_gaps as nat)));
    let r6 = r5.push(("\n  ignored "@, text::decimal(h.packets_ignored as nat)));
    let r7 = r6.push(("  decode fail "@, text::decimal(h.decode_failures as nat)));
    let r8 = r7.push(("  cmds sent "@, text::decimal(h.commands_sent as nat)));
    let r9 = r8.push(("\n  vehicle-state stream: rate "@, rate_words(h.mean_interval)));
    let r10 = r9.push(("  buffered "@, text::decimal(h.buffered_samples as nat)));
    let r11 = r10.push(("  inserted "@, text::decimal(h.buffer.inserted as nat)));
    let r12 = r11.push(("  reordered "@, text::decimal(h.buffer.reordered as nat)));
    let r13 = r12.push(("  resyncs "@, text::decimal(h.buffer.resyncs as nat)));
    lemma_captioned(none, "LINK   "@, d.endpoint@);
    assert(captioned(none) + "LINK   "@ =~= "LINK   "@);
    lemma_captioned(r1, "\n  rx "@, text::decimal(h.packets_received as nat));
    lemma_captioned(r2, "  dropped "@, text::decimal(h.packets_dropped as nat));
    lemma_captioned(r3, "  parse err "@, text::decimal(h.parse_errors as nat));
    lemma_captioned(r4, "  seq gaps "@, text::decimal(h.sequence_gaps as nat));
    lemma_captioned(r5, "\n  ignored "@, text::decimal(h.packets_ignored as nat));
    lemma_captioned(r6, "  decode fail "@, text::decimal(h.decode_failures as nat));
    lemma_captioned(r7, "  cmds sent "@, text::decimal(h.commands_sent as nat));
    lemma_captioned(r8, "\n  vehicle-state stream: rate "@, rate_words(h.mean_interval));
    lemma_captioned(r9, "  buffered "@, text::decimal(h.buffered_samples as nat));
    lemma_captioned(r10, "  inserted "@, text::decimal(h.buffer.inserted as nat));
    lemma_captioned(r11, "  reordered "@, text::decimal(h.buffer.reordered as nat));
    lemma_captioned(r12, "  resyncs "@, text::decimal(h.buffer.resyncs as nat));
    lemma_captioned(r13, "\n  "@, playback_words(d.pipeline, d.freshness));
    assert(r13.push(("\n  "@, playback_words(d.pipeline, d.freshness))) =~= link_rows(d));
}

/// An application that reports shows its counters, the accepted before the refused, three
/// wide; one that does not shows that it does not.
pub proof fn each_application_shows_its_own_counters(
    s: SampleAppHk,
    t: ToLabHk,
    c: CiLabHk,
    r: RustAppHk,
)
    ensures
        sample_app_line(Some(s)) == "  SAMPLE_APP  cmd "@ + text::right_aligned(
            text::decimal(s.command_counter as nat),
            3,
        ) + "  err "@ + text::right_aligned(text::decimal(s.command_error_counter as nat), 3)
            + "\n"@,
        to_lab_line(Some(t)) == "  TO_LAB      cmd "@ + text::right_aligned(
            text::decimal(t.command_counter as nat),
            3,
        ) + "  err "@ + text::right_aligned(text::decimal(t.command_error_counter as nat), 3)
            + "\n"@,
        ci_lab_line(Some(c)) == "  CI_LAB      cmd "@ + text::right_aligned(
            text::decimal(c.command_counter as nat),
            3,
        ) + "  err "@ + text::right_aligned(text::decimal(c.command_error_counter as nat), 3)
            + "  ingest "@ + text::decimal(c.ingest_packets as nat) + "/"@ + text::decimal(
            c.ingest_errors as nat,
        ) + "  socket "@ + text::decimal(c.socket_connected as nat) + "  cksum "@ + (
        if c.enable_checksums > 0 {
            "on"@
        } else {
            "off"@
        }) + "\n"@,
        rust_app_line(Some(r)) == "  RUST_APP    cmd "@ + text::right_aligned(
            text::decimal(r.command_counter as nat),
            3,
        ) + "  err "@ + text::right_aligned(text::decimal(r.command_error_counter as nat), 3)
            + "  cycles "@ + text::decimal(r.control_cycles as nat) + "  targets "@
            + text::decimal(r.targets_commanded as nat) + "\n"@,
        sample_app_line(None) == "  SAMPLE_APP  --\n"@,
        to_lab_line(None) == "  TO_LAB      --\n"@,
        ci_lab_line(None) == "  CI_LAB      --\n"@,
        rust_app_line(None) == "  RUST_APP -- (not loaded: no vehicle dynamics on this bus)\n"@,
{
}

/// An age reads in tenths of a second, to the closest; a rate in tenths of a hertz, to the
/// closest, and as unknown without a mean.
pub proof fn ages_and_rates_read_to_the_closest_tenth(age: u64, mean: u128)
    ensures
        ({
            let n = text::nearest(10 * age as nat, 1_024_000_000);
            &&& age_text(age) == text::tenths(n)
            &&& -51_200_000 <= n * 102_400_000 - age <= 51_200_000
        }),
        mean > 0 ==> rate_words(Some(mean)) == text::tenths(
            text::nearest(10_240_000_000_000_000_000_000_000_000, mean as nat),
        ) + " Hz"@,
        rate_words(Some(0)) == "-- Hz"@,
        rate_words(None) == "-- Hz"@,
{
    text::rounding_goes_to_the_closest(10 * age as nat, 1_024_000_000);
}

/// A freshness says what it is, and how old where it is old. A derived or offline display
/// says that instead, and one that waits says that nothing is there.
pub proof fn a_freshness_says_what_it_is(p: Pipeline, f: Freshness, age: u64)
    ensures
        freshness_words(Freshness::NoData) == "NO DATA - nothing decoded yet"@,
        freshness_words(Freshness::Warming) == "WARMING - buffering before playback"@,
        freshness_words(Freshness::Live) == "LIVE - interpolating between real samples"@,
        freshness_words(Freshness::Holding { age }) == "HOLDING "@ + age_text(age)
            + "s - last known value, not extrapolated"@,
        freshness_words(Freshness::Stale { age }) == "STALE "@ + age_text(age)
            + "s - the vehicle may have moved since"@,
        p is Flight || p is Standin ==> playback_words(p, f) == freshness_words(f),
        p is Waiting ==> playback_words(p, f) == "NO DATA - nothing decoded yet"@,
        p is Derived ==> playback_words(p, f)
            == "LIVE (derived) - housekeeping steps at the scheduler rate, not interpolated"@,
        p is Offline ==> playback_words(p, f)
            == "OFFLINE - computed for this instant, no samples to play back"@,
{
}

/// The panel is its sections in order, under a banner where the rig is broken.
pub proof fn the_panel_is_its_sections_in_order(d: PanelData<'_>)
    ensures
        d.rig_error is None ==> rendered(d) == link_section(d) + flight_section(*d.hk)
            + vehicle_section(d) + command_section(*d.commands),
        d.rig_error is Some ==> rendered(d) == "!! "@ + d.rig_error->0@ + "\n\n"@ + link_section(d)
            + flight_section(*d.hk) + vehicle_section(d) + command_section(*d.commands),
        flight_section(*d.hk) == "FLIGHT SOFTWARE  (real cFE housekeeping)\n"@ + sample_app_line(
            d.hk.sample_app,
        ) + to_lab_line(d.hk.to_lab) + ci_lab_line(d.hk.ci_lab) + rust_app_line(d.hk.rust_app)
            + mission_time_line(d.hk.last_time),
        mission_time_line(d.hk.last_time) == (match d.hk.last_time {
            Some(t) => "  mission time "@ + text::seconds(t as int) + "s since 1980-01-01\n\n"@,
            None => "  mission time --\n\n"@,
        }),
{
    reveal_strlit("");
    if d.rig_error is None {
        assert(banner(d.rig_error) + link_section(d) =~= link_section(d));
    }
}

/// A signal's line has its name, its source and its mechanism, the first two in columns;
/// the vehicle section has one for each signal, in order.
pub proof fn each_signal_has_its_line(
    rows: Seq<(&'static str, Source, &'static str)>,
    n: int,
    d: PanelData<'_>,
)
    requires
        0 <= n < rows.len(),
    ensures
        signal_lines(rows, 0).len() == 0,
        signal_lines(rows, n + 1) == signal_lines(rows, n) + ("  "@ + text::left_aligned(
            rows[n].0@,
            12,
        ) + " "@ + text::left_aligned(rows[n].1.wording(), 34) + " -> "@ + rows[n].2@ + "\n"@),
        vehicle_section(d) == "VEHICLE  "@ + d.pipeline.wording() + "\n"@ + signal_lines(
            d.sources.table(),
            5,
        ) + "  array "@ + text::right_aligned(d.array_deg@, 6) + "deg   deploy "@
            + d.deploy_progress@ + "   mode "@ + d.mode.title() + "\n  inner hinge as drawn "@ + (
        match d.drawn_hinge_deg {
            Some(deg) => text::right_aligned(deg@, 7) + "deg"@,
            None => "--"@,
        }) + "\n\n"@,
{
}

/// The command section explains the two tracked keys, lists one line for each vehicle key,
/// and ends with the line of the command loop.
pub proof fn the_command_section_lists_the_keys(commands: CommandLoop, n: int)
    requires
        0 <= n < 6,
    ensures
        key_lines(0).len() == 0,
        key_lines(n + 1) == key_lines(n) + ("  "@ + keys::vehicle_table()[n].2@ + "\n"@),
        command_section(commands) == "COMMAND  (real packets to ci_lab)\n"@
            + "  [N] SAMPLE_APP NOOP      [R] SAMPLE_APP RESET_COUNTERS\n"@ + key_lines(6) + "  "@
            + commands.line() + "\n"@,
{
}

} // verus!
