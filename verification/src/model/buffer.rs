//! Jitter buffer: turns irregular telemetry arrivals into a smooth, continuous
//! signal a renderer can sample at any frame rate.
//!
//! # The approach
//!
//! Play back on a deliberate delay. Holding roughly two telemetry periods of
//! history means there is almost always a sample on *both* sides of the playback
//! instant, so every frame is an interpolation between two real measurements rather
//! than a guess past the end. The cost is latency, bought deliberately.
//!
//! # What this deliberately does not do
//!
//! It never extrapolates. Past the newest sample it holds the last known value and
//! reports increasing staleness, because a display that keeps smoothly rotating a
//! vehicle after telemetry stopped is inventing data. See [`Freshness`].

use std::collections::VecDeque;
use vstd::prelude::*;

use crate::clock::TICKS_PER_SECOND;
use crate::model::state::{Mode, Sample, SpacecraftState};

verus! {

/// Tuning for a [`JitterBuffer`]. Times are ticks.
#[derive(Clone, Copy, Debug, PartialEq, Eq, Structural)]
pub struct BufferConfig {
    /// How far behind the newest telemetry to play back.
    ///
    /// Roughly two telemetry periods. Too small and playback runs off the end of
    /// the buffer between samples; too large and the display lags visibly.
    pub delay: i64,
    /// Age past the newest sample beyond which the signal is reported
    /// [`Freshness::Stale`].
    pub stale_after: i64,
    /// Maximum samples retained.
    pub capacity: usize,
    /// If telemetry time and playback time diverge by more than this, jump rather
    /// than crawl.
    ///
    /// Not hypothetical: cFE restarts its clock on a processor reset. Without a
    /// resync the buffer would wait out the difference in real time, i.e. forever.
    pub resync_threshold: i64,
}

/// `x`, or the nearest end of the 64-bit range.
pub open spec fn saturated(x: int) -> i64 {
    if x > i64::MAX {
        i64::MAX
    } else if x < i64::MIN {
        i64::MIN
    } else {
        x as i64
    }
}

fn saturate(x: i128) -> (r: i64)
    ensures
        r == saturated(x as int),
{
    if x > i64::MAX as i128 {
        i64::MAX
    } else if x < i64::MIN as i128 {
        i64::MIN
    } else {
        x as i64
    }
}

impl BufferConfig {
    pub open spec fn standard() -> BufferConfig {
        BufferConfig {
            delay: (TICKS_PER_SECOND / 5) as i64,
            stale_after: TICKS_PER_SECOND,
            capacity: 256,
            resync_threshold: (5 * TICKS_PER_SECOND) as i64,
        }
    }

    /// The tuning for a telemetry period.
    pub open spec fn of_period(period: i64) -> BufferConfig {
        BufferConfig {
            delay: saturated(2 * period),
            stale_after: saturated(5 * period),
            ..BufferConfig::standard()
        }
    }

    /// Tuning for a known telemetry period.
    ///
    /// Playback sits two periods back, which keeps a sample on both sides of the
    /// playback instant even when one is lost or arrives late. `stale_after` is
    /// five periods: long enough not to flicker on a single miss, short enough that
    /// a viewer notices a dead link quickly.
    pub fn for_rate(period: i64) -> (c: Self)
        ensures
            c == (BufferConfig {
                delay: saturated(2 * period),
                stale_after: saturated(5 * period),
                ..BufferConfig::standard()
            }),
            c == BufferConfig::of_period(period),
    {
        BufferConfig {
            delay: saturate(2 * period as i128),
            stale_after: saturate(5 * period as i128),
            ..BufferConfig::default()
        }
    }
}

impl Default for BufferConfig {
    /// A delay of 0.2 s, stale after 1 s, 256 samples, resync beyond 5 s.
    fn default() -> (c: Self)
        ensures
            c == BufferConfig::standard(),
    {
        BufferConfig {
            delay: TICKS_PER_SECOND / 5,
            stale_after: TICKS_PER_SECOND,
            capacity: 256,
            resync_threshold: 5 * TICKS_PER_SECOND,
        }
    }
}

/// How much to trust what [`JitterBuffer::playback`] just returned.
///
/// Meant to be surfaced to the operator, not just logged.
#[derive(Clone, Copy, Debug, PartialEq, Eq, Structural)]
pub enum Freshness {
    /// Nothing received yet.
    NoData,
    /// Samples received, but playback has not yet reached them.
    Warming,
    /// Interpolating between two real samples. The normal state.
    Live,
    /// At the newest sample or past it, holding its value. `age` ticks since it.
    Holding { age: u64 },
    /// Held for longer than `stale_after`. The link is probably down.
    Stale { age: u64 },
}

impl Freshness {
    /// The value came from interpolating.
    pub open spec fn interpolates(self) -> bool {
        self is Live
    }

    /// True when the value came from interpolating two real measurements.
    pub fn is_live(self) -> (yes: bool)
        ensures
            yes == (self is Live),
            yes == self.interpolates(),
    {
        match self {
            Freshness::Live => true,
            _ => false,
        }
    }

    /// Ticks since the newest sample, where that is meaningful.
    pub open spec fn ticks_past(self) -> Option<u64> {
        match self {
            Freshness::Holding { age } => Some(age),
            Freshness::Stale { age } => Some(age),
            _ => None,
        }
    }

    pub fn age(self) -> (age: Option<u64>)
        ensures
            age == self.ticks_past(),
    {
        match self {
            Freshness::Holding { age } => Some(age),
            Freshness::Stale { age } => Some(age),
            _ => None,
        }
    }
}

/// Counters worth showing on a link-health panel. Each wraps around.
#[derive(Clone, Copy, Debug, PartialEq, Eq, Structural)]
pub struct BufferStats {
    pub inserted: u64,
    /// Samples that arrived older than one already held: UDP reordering.
    pub reordered: u64,
    /// Samples with a timestamp already present.
    pub duplicates: u64,
    /// Samples discarded because the buffer was full.
    pub evicted: u64,
    /// Playback-clock jumps.
    pub resyncs: u64,
}

impl BufferStats {
    pub open spec fn zero() -> BufferStats {
        BufferStats { inserted: 0, reordered: 0, duplicates: 0, evicted: 0, resyncs: 0 }
    }
}

impl Default for BufferStats {
    fn default() -> (s: Self)
        ensures
            s == BufferStats::zero(),
    {
        BufferStats { inserted: 0, reordered: 0, duplicates: 0, evicted: 0, resyncs: 0 }
    }
}

/// What the display should show, as far as the samples decide it.
#[derive(Clone, Copy, Debug, PartialEq, Eq)]
pub enum Shown {
    /// No sample is held, because none has arrived or there is no room for any: the
    /// vehicle's default state.
    Nothing,
    /// One sample's state, unchanged.
    Held(SpacecraftState),
    /// `elapsed` of `span` ticks of the way from one sample's state to the next
    /// one's. Continuous quantities blend; `mode` is already decided.
    Between {
        before: SpacecraftState,
        after: SpacecraftState,
        elapsed: u64,
        span: u64,
        mode: Mode,
    },
}

/// The mode to show `elapsed` of `span` of the way between two samples.
///
/// It snaps at the midpoint. Interpolating a mode would invent states that never
/// existed.
pub open spec fn mode_at(before: Mode, after: Mode, elapsed: int, span: int) -> Mode {
    if 2 * elapsed < span {
        before
    } else {
        after
    }
}

/// What a jitter buffer holds.
#[verifier::ext_equal]
pub struct BufferModel {
    pub samples: Seq<Sample>,
    pub config: BufferConfig,
    /// Playback position, on the telemetry timescale.
    pub playback: Option<i64>,
    /// Running mean of the interval between in-order arrivals, in parts of a tick.
    pub mean_interval: Option<u128>,
    pub stats: BufferStats,
}

/// Strictly increasing in time.
pub open spec fn time_ordered(s: Seq<Sample>) -> bool {
    forall|i: int, j: int| 0 <= i < j < s.len() ==> (#[trigger] s[i]).time < (#[trigger] s[j]).time
}

/// How many samples of a time-ordered sequence are older than `time`.
pub open spec fn older_than(s: Seq<Sample>, time: i64) -> nat
    decreases s.len(),
{
    if s.len() == 0 || s[0].time >= time {
        0
    } else {
        1 + older_than(s.drop_first(), time)
    }
}

/// How many samples of a time-ordered sequence are at or before `time`.
pub open spec fn up_to(s: Seq<Sample>, time: i64) -> nat
    decreases s.len(),
{
    if s.len() == 0 || s[0].time > time {
        0
    } else {
        1 + up_to(s.drop_first(), time)
    }
}

/// Whether two times are within `threshold` of each other.
pub open spec fn within(a: int, b: int, threshold: int) -> bool {
    -threshold <= a - b <= threshold
}

/// `s` without what is unreachable at `playback`: every sample whose successor is
/// already at or before it, as long as more than two are left.
pub open spec fn reachable(s: Seq<Sample>, playback: i64) -> Seq<Sample>
    decreases s.len(),
{
    if s.len() > 2 && s[1].time <= playback {
        reachable(s.drop_first(), playback)
    } else {
        s
    }
}

/// Parts of a tick in which the mean interval is held. The mean is exact over the
/// first nineteen intervals, and from then on rounded down, by less than ten parts.
pub const MEAN_PARTS: u128 = 1_000_000_000_000_000_000;

/// The running mean, in parts of a tick, after one more interval, which counts for a
/// tenth of it.
pub open spec fn mean_after(mean: Option<u128>, interval: int) -> u128 {
    match mean {
        Some(m) => ((9 * m + interval * MEAN_PARTS) / 10) as u128,
        None => (interval * MEAN_PARTS) as u128,
    }
}

/// A mean of intervals, each of which fits 64 bits.
pub open spec fn mean_fits(mean: Option<u128>) -> bool {
    mean is Some ==> mean->0 <= u64::MAX * MEAN_PARTS
}

impl BufferModel {
    /// Time-ordered, no larger than its capacity, and, where there is room for a
    /// sample, empty only until the first one arrives. Its mean is one of intervals.
    pub open spec fn wf(self) -> bool {
        &&& time_ordered(self.samples)
        &&& self.samples.len() <= self.config.capacity
        &&& self.playback is None ==> self.samples.len() == 0
        &&& self.playback is Some && self.config.capacity > 0 ==> self.samples.len() > 0
        &&& mean_fits(self.mean_interval)
    }

    pub open spec fn empty(config: BufferConfig) -> BufferModel {
        BufferModel {
            samples: Seq::empty(),
            config,
            playback: None,
            mean_interval: None,
            stats: BufferStats::zero(),
        }
    }

    /// A sample of the same instant is already held.
    pub open spec fn holds_time(self, time: i64) -> bool {
        let at = older_than(self.samples, time) as int;
        at < self.samples.len() && self.samples[at].time == time
    }

    /// An arrival at `time` is too far from where playback stands.
    pub open spec fn adrift(self, time: i64) -> bool {
        match self.playback {
            Some(p) => !within(
                saturated(time - self.config.delay) as int,
                p as int,
                self.config.resync_threshold as int,
            ),
            None => false,
        }
    }

    /// After playback jumped to an arrival at `time`: what is left is what
    /// describes the same timeline.
    pub open spec fn resynced(self, time: i64) -> BufferModel {
        BufferModel {
            playback: Some(saturated(time - self.config.delay)),
            samples: self.samples.filter(
                |s: Sample| within(s.time as int, time as int, self.config.resync_threshold as int),
            ),
            stats: BufferStats {
                resyncs: self.stats.resyncs.wrapping_add(1),
                ..self.stats
            },
            ..self
        }
    }

    /// After the interval to a new arrival was averaged in, if it is the newest, and
    /// playback was started, if it is the first.
    pub open spec fn timed(self, time: i64) -> BufferModel {
        let n = self.samples.len() as int;
        BufferModel {
            mean_interval: if n > 0 && time > self.samples[n - 1].time {
                Some(mean_after(self.mean_interval, time - self.samples[n - 1].time))
            } else {
                self.mean_interval
            },
            // Playback starts `delay` behind the first sample ever seen.
            playback: match self.playback {
                None => Some(saturated(time - self.config.delay)),
                started => started,
            },
            ..self
        }
    }

    /// After the oldest sample was dropped for an arrival after it that there is no
    /// room for.
    pub open spec fn relieved(self, time: i64) -> BufferModel {
        if self.samples.len() > 0 && self.samples.len() >= self.config.capacity && self.samples[0].time < time {
            BufferModel {
                samples: self.samples.drop_first(),
                stats: BufferStats {
                    evicted: self.stats.evicted.wrapping_add(1),
                    ..self.stats
                },
                ..self
            }
        } else {
            self
        }
    }

    /// After a sample was put in its place and, with no room for it, the oldest was
    /// dropped. After a jump of playback to that sample it is the oldest of the
    /// others.
    pub open spec fn placed(self, sample: Sample, jumped: bool) -> BufferModel {
        let at = older_than(self.samples, sample.time) as int;
        let grown = self.samples.insert(at, sample);
        let full = grown.len() > self.config.capacity;
        let spared = jumped && at == 0 && self.samples.len() > 0;
        BufferModel {
            samples: if !full {
                grown
            } else if spared {
                grown.remove(1)
            } else {
                grown.remove(0)
            },
            stats: BufferStats {
                inserted: self.stats.inserted.wrapping_add(1),
                evicted: if full {
                    self.stats.evicted.wrapping_add(1)
                } else {
                    self.stats.evicted
                },
                ..self.stats
            },
            ..self
        }
    }

    /// After the arrival of a sample was noted as late, if it was.
    pub open spec fn counted(self, sample: Sample) -> BufferModel {
        if self.samples.len() > 0 && sample.time < self.samples.last().time {
            BufferModel {
                stats: BufferStats {
                    reordered: self.stats.reordered.wrapping_add(1),
                    ..self.stats
                },
                ..self
            }
        } else {
            self
        }
    }

    /// After one sample arrived.
    pub open spec fn inserted(self, sample: Sample) -> BufferModel {
        let m = self.counted(sample);
        if self.holds_time(sample.time) {
            BufferModel {
                stats: BufferStats {
                    duplicates: m.stats.duplicates.wrapping_add(1),
                    ..m.stats
                },
                ..m
            }
        } else {
            let timed = m.timed(sample.time);
            if timed.adrift(sample.time) {
                timed.relieved(sample.time).resynced(sample.time).placed(sample, true)
            } else {
                timed.placed(sample, false)
            }
        }
    }

    /// After playback advanced by `dt`.
    pub open spec fn advanced(self, dt: i64) -> BufferModel {
        match self.playback {
            None => self,
            Some(p) => BufferModel {
                playback: Some(saturated(p + dt)),
                samples: reachable(self.samples, saturated(p + dt)),
                ..self
            },
        }
    }

    /// The mean interval, where one is known.
    pub open spec fn known_mean(self) -> Option<u128> {
        match self.mean_interval {
            Some(i) if i > 0 => Some(i),
            _ => None,
        }
    }

    /// What is shown at the playback instant, and how far to trust it.
    pub open spec fn shown(self) -> (Shown, Freshness) {
        let s = self.samples;
        if self.playback is None || s.len() == 0 {
            (Shown::Nothing, Freshness::NoData)
        } else {
            let p = self.playback->0;
            if p < s.first().time {
                (Shown::Held(s.first().state), Freshness::Warming)
            } else if p >= s.last().time {
                let age = (p - s.last().time) as u64;
                (
                    Shown::Held(s.last().state),
                    if age > self.config.stale_after {
                        Freshness::Stale { age }
                    } else {
                        Freshness::Holding { age }
                    },
                )
            } else {
                let j = up_to(s, p) as int;
                let (a, b) = (s[j - 1], s[j]);
                (
                    Shown::Between {
                        before: a.state,
                        after: b.state,
                        elapsed: (p - a.time) as u64,
                        span: (b.time - a.time) as u64,
                        mode: mode_at(a.state.mode, b.state.mode, p - a.time, b.time - a.time),
                    },
                    Freshness::Live,
                )
            }
        }
    }
}

/// A time-ordered window of recent telemetry, sampled on a delay.
#[derive(Debug)]
pub struct JitterBuffer {
    samples: VecDeque<Sample>,
    config: BufferConfig,
    playback: Option<i64>,
    mean_interval: Option<u128>,
    stats: BufferStats,
}

impl View for JitterBuffer {
    type V = BufferModel;

    closed spec fn view(&self) -> BufferModel {
        BufferModel {
            samples: self.samples@,
            config: self.config,
            playback: self.playback,
            mean_interval: self.mean_interval,
            stats: self.stats,
        }
    }
}

/// The samples older than `time` are exactly the first `older_than` ones.
pub proof fn lemma_older_than(s: Seq<Sample>, time: i64)
    requires
        time_ordered(s),
    ensures
        older_than(s, time) <= s.len(),
        forall|i: int| 0 <= i < older_than(s, time) ==> (#[trigger] s[i]).time < time,
        forall|i: int| older_than(s, time) <= i < s.len() ==> (#[trigger] s[i]).time >= time,
    decreases s.len(),
{
    if s.len() > 0 && s[0].time < time {
        let t = s.drop_first();
        lemma_older_than(t, time);
        assert forall|i: int| 0 <= i < older_than(s, time) implies (#[trigger] s[i]).time < time by {
            if i > 0 {
                assert(t[i - 1] == s[i]);
            }
        }
        assert forall|i: int| older_than(s, time) <= i < s.len() implies (#[trigger] s[i]).time
            >= time by {
            assert(t[i - 1] == s[i]);
        }
    }
}

/// An index that splits the samples at `time` is `older_than`.
pub proof fn lemma_older_than_is(s: Seq<Sample>, time: i64, n: int)
    requires
        time_ordered(s),
        0 <= n <= s.len(),
        forall|i: int| 0 <= i < n ==> (#[trigger] s[i]).time < time,
        n < s.len() ==> s[n].time >= time,
    ensures
        older_than(s, time) == n,
{
    lemma_older_than(s, time);
    let k = older_than(s, time) as int;
    if k < n {
        assert(s[k].time < time);
        assert(false);
    }
    if n < k {
        assert(s[n].time < time);
        assert(false);
    }
}

/// The samples at or before `time` are exactly the first `up_to` ones.
pub proof fn lemma_up_to(s: Seq<Sample>, time: i64)
    requires
        time_ordered(s),
    ensures
        up_to(s, time) <= s.len(),
        forall|i: int| 0 <= i < up_to(s, time) ==> (#[trigger] s[i]).time <= time,
        forall|i: int| up_to(s, time) <= i < s.len() ==> (#[trigger] s[i]).time > time,
    decreases s.len(),
{
    if s.len() > 0 && s[0].time <= time {
        let t = s.drop_first();
        lemma_up_to(t, time);
        assert forall|i: int| 0 <= i < up_to(s, time) implies (#[trigger] s[i]).time <= time by {
            if i > 0 {
                assert(t[i - 1] == s[i]);
            }
        }
        assert forall|i: int| up_to(s, time) <= i < s.len() implies (#[trigger] s[i]).time
            > time by {
            assert(t[i - 1] == s[i]);
        }
    }
}

/// An index that splits the samples just after `time` is `up_to`.
pub proof fn lemma_up_to_is(s: Seq<Sample>, time: i64, n: int)
    requires
        time_ordered(s),
        0 <= n <= s.len(),
        n > 0 ==> s[n - 1].time <= time,
        n < s.len() ==> s[n].time > time,
    ensures
        up_to(s, time) == n,
{
    lemma_up_to(s, time);
    let k = up_to(s, time) as int;
    if k < n {
        assert(s[n - 1].time > time);
    }
    if n < k {
        assert(s[n].time <= time);
    }
}

/// A filtered time-ordered sequence is still time-ordered, and no longer.
pub proof fn lemma_filter_keeps_order(s: Seq<Sample>, keep: spec_fn(Sample) -> bool)
    requires
        time_ordered(s),
    ensures
        time_ordered(s.filter(keep)),
        s.filter(keep).len() <= s.len(),
        forall|i: int|
            0 <= i < s.filter(keep).len() ==> #[trigger] s.contains(s.filter(keep)[i]) && keep(
                s.filter(keep)[i],
            ),
    decreases s.len(),
{
    reveal(Seq::filter);
    if s.len() > 0 {
        let head = s.drop_last();
        lemma_filter_keeps_order(head, keep);
        let f = s.filter(keep);
        let g = head.filter(keep);
        assert forall|i: int| 0 <= i < g.len() implies #[trigger] g[i].time < s.last().time by {
            assert(head.contains(g[i]));
            let k = choose|k: int| 0 <= k < head.len() && head[k] == g[i];
            assert(s[k] == g[i]);
        }
        assert forall|i: int| 0 <= i < f.len() implies #[trigger] s.contains(f[i]) && keep(
            f[i],
        ) by {
            if i < g.len() {
                assert(head.contains(g[i]));
                let k = choose|k: int| 0 <= k < head.len() && head[k] == g[i];
                assert(s[k] == f[i]);
            } else {
                assert(s[s.len() - 1] == f[i]);
            }
        }
    }
}

impl JitterBuffer {
    /// Well-formed: see [`BufferModel::wf`].
    pub open spec fn wf(&self) -> bool {
        self@.wf()
    }

    pub fn new(config: BufferConfig) -> (b: Self)
        ensures
            b.wf(),
            b@ == BufferModel::empty(config),
    {
        let b = JitterBuffer {
            samples: VecDeque::new(),
            config,
            playback: None,
            mean_interval: None,
            stats: BufferStats::default(),
        };
        assert(b@ =~= BufferModel::empty(config));
        b
    }

    pub fn config(&self) -> (c: BufferConfig)
        ensures
            c == self@.config,
    {
        self.config
    }

    pub fn stats(&self) -> (s: BufferStats)
        ensures
            s == self@.stats,
    {
        self.stats
    }

    pub fn len(&self) -> (n: usize)
        ensures
            n == self@.samples.len(),
    {
        self.samples.len()
    }

    pub fn is_empty(&self) -> (yes: bool)
        ensures
            yes == (self@.samples.len() == 0),
    {
        self.samples.len() == 0
    }

    /// The sample at `i`, oldest first.
    pub fn sample(&self, i: usize) -> (s: Option<Sample>)
        ensures
            s == (if i < self@.samples.len() {
                Some(self@.samples[i as int])
            } else {
                None
            }),
    {
        if i < self.samples.len() {
            Some(self.samples[i])
        } else {
            None
        }
    }

    /// Running mean of the telemetry interval in parts of a tick, [`MEAN_PARTS`] each,
    /// once two samples have been seen. Its reciprocal is the estimated rate.
    pub fn mean_interval(&self) -> (m: Option<u128>)
        ensures
            m == (match self@.mean_interval {
                Some(i) if i > 0 => Some(i),
                _ => None,
            }),
            m == self@.known_mean(),
    {
        match self.mean_interval {
            Some(i) => if i > 0 {
                Some(i)
            } else {
                None
            },
            None => None,
        }
    }

    /// Where a sample of `time` belongs.
    fn position(&self, time: i64) -> (at: usize)
        requires
            time_ordered(self@.samples),
        ensures
            at == older_than(self@.samples, time),
            at <= self@.samples.len(),
    {
        let n: usize = self.samples.len();
        // In-order arrival is the overwhelmingly common case.
        if n > 0 && self.samples[n - 1].time < time {
            proof {
                lemma_older_than_is(self@.samples, time, n as int);
            }
            return n;
        }
        let mut i: usize = 0;
        while i < n && self.samples[i].time < time
            invariant
                n == self.samples@.len(),
                i <= n,
                forall|k: int| 0 <= k < i ==> (#[trigger] self.samples@[k]).time < time,
            decreases n - i,
        {
            i = i + 1;
        }
        proof {
            lemma_older_than_is(self@.samples, time, i as int);
        }
        i
    }

    /// Insert a sample, keeping the buffer ordered by time.
    ///
    /// Out-of-order and duplicate arrivals are handled rather than assumed away:
    /// this is UDP, and `to_lab` publishes from several apps. Of two samples with
    /// one timestamp the first to arrive is kept.
    pub fn insert(&mut self, sample: Sample)
        requires
            old(self).wf(),
        ensures
            final(self).wf(),
            final(self)@ == old(self)@.inserted(sample),
    {
        let ghost start = self@;
        let n: usize = self.samples.len();
        let at: usize = self.position(sample.time);
        proof {
            lemma_older_than(self@.samples, sample.time);
        }
        if n > 0 && sample.time < self.samples[n - 1].time {
            self.stats.reordered = self.stats.reordered.wrapping_add(1);
        }
        assert(self@ =~= start.counted(sample));
        if at < n && self.samples[at].time == sample.time {
            // Same instant: a retransmit, or two packets sharing a timestamp.
            self.stats.duplicates = self.stats.duplicates.wrapping_add(1);
            assert(self@ =~= start.inserted(sample));
            return ;
        }
        let ghost counted = self@;
        if n > 0 && sample.time > self.samples[n - 1].time {
            let interval: u64 = (sample.time as i128 - self.samples[n - 1].time as i128) as u64;
            self.mean_interval = Some(
                match self.mean_interval {
                    Some(m) => (9 * m + interval as u128 * MEAN_PARTS) / 10,
                    None => interval as u128 * MEAN_PARTS,
                },
            );
        }
        if self.playback.is_none() {
            self.playback = Some(saturate(sample.time as i128 - self.config.delay as i128));
        }
        assert(self@ =~= counted.timed(sample.time));
        let jumped = self.resync_if_adrift(sample.time);
        self.place(sample, jumped);
    }

    /// Put a sample in its place, dropping the oldest if there is no room for it.
    /// After a jump to that sample it is the oldest of the others that goes.
    fn place(&mut self, sample: Sample, jumped: bool)
        requires
            time_ordered(old(self)@.samples),
            old(self)@.samples.len() <= old(self)@.config.capacity,
            old(self)@.playback is Some,
            mean_fits(old(self)@.mean_interval),
            forall|i: int|
                0 <= i < old(self)@.samples.len() ==> (#[trigger] old(self)@.samples[i]).time
                    != sample.time,
        ensures
            final(self).wf(),
            final(self)@ == old(self)@.placed(sample, jumped),
    {
        let ghost start = self@;
        let n: usize = self.samples.len();
        let at: usize = self.position(sample.time);
        let ghost grown = start.samples.insert(at as int, sample);
        proof {
            lemma_older_than(start.samples, sample.time);
        }
        assert(time_ordered(grown));
        self.stats.inserted = self.stats.inserted.wrapping_add(1);
        if n < self.config.capacity {
            self.samples.insert(at, sample);
        } else {
            self.stats.evicted = self.stats.evicted.wrapping_add(1);
            if jumped && at == 0 && n > 0 {
                let _ = self.samples.pop_front();
                self.samples.push_front(sample);
                assert(self@.samples =~= grown.remove(1));
            } else {
                self.samples.insert(at, sample);
                let _ = self.samples.pop_front();
                assert(self@.samples =~= grown.remove(0));
            }
        }
        assert(self@ =~= start.placed(sample, jumped));
    }

    /// If an arriving sample is far from playback, jump to it.
    ///
    /// Keyed on the *arriving* sample rather than the newest held one: a backwards
    /// clock jump lands at the front, so the newest held sample would still be of
    /// the stale timeline and the resync would never fire. The old timeline goes
    /// before the arrival is placed, so that it does not cost the arrival its place. An
    /// arrival that would not be the oldest first takes the oldest one's place in a
    /// full buffer, as any arrival does.
    fn resync_if_adrift(&mut self, arrival: i64) -> (jumped: bool)
        requires
            time_ordered(old(self)@.samples),
            old(self)@.samples.len() <= old(self)@.config.capacity,
            old(self)@.playback is Some,
        ensures
            time_ordered(final(self)@.samples),
            final(self)@.samples.len() <= final(self)@.config.capacity,
            forall|i: int|
                0 <= i < final(self)@.samples.len() ==> old(self)@.samples.contains(
                    #[trigger] final(self)@.samples[i],
                ),
            jumped == old(self)@.adrift(arrival),
            final(self)@ == (if jumped {
                old(self)@.relieved(arrival).resynced(arrival)
            } else {
                old(self)@
            }),
    {
        let target: i64 = saturate(arrival as i128 - self.config.delay as i128);
        let threshold: i128 = self.config.resync_threshold as i128;
        let playback: i64 = match self.playback {
            Some(p) => p,
            None => {
                return false;
            },
        };
        let gap: i128 = target as i128 - playback as i128;
        if -threshold <= gap && gap <= threshold {
            return false;
        }
        if self.samples.len() > 0 && self.samples.len() >= self.config.capacity
            && self.samples[0].time < arrival {
            let _ = self.samples.pop_front();
            self.stats.evicted = self.stats.evicted.wrapping_add(1);
        }
        let ghost start = self@;
        assert(start =~= old(self)@.relieved(arrival));
        self.playback = Some(target);
        self.stats.resyncs = self.stats.resyncs.wrapping_add(1);
        let ghost keep = |s: Sample|
            within(s.time as int, arrival as int, start.config.resync_threshold as int);
        let n: usize = self.samples.len();
        let mut kept: VecDeque<Sample> = VecDeque::new();
        let mut i: usize = 0;
        proof {
            reveal(Seq::filter);
        }
        while i < n
            invariant
                n == self.samples@.len(),
                i <= n,
                threshold == start.config.resync_threshold,
                keep == (|s: Sample|
                    within(s.time as int, arrival as int, start.config.resync_threshold as int)),
                kept@ == self.samples@.take(i as int).filter(keep),
            decreases n - i,
        {
            proof {
                reveal(Seq::filter);
            }
            assert(self.samples@.take(i + 1).drop_last() =~= self.samples@.take(i as int));
            let s: Sample = self.samples[i];
            let off: i128 = s.time as i128 - arrival as i128;
            if -threshold <= off && off <= threshold {
                kept.push_back(s);
            }
            i = i + 1;
        }
        assert(self.samples@.take(n as int) =~= self.samples@);
        proof {
            lemma_filter_keeps_order(start.samples, keep);
        }
        self.samples = kept;
        assert(self@ =~= start.resynced(arrival));
        assert forall|i: int| 0 <= i < self@.samples.len() implies old(self)@.samples.contains(
            #[trigger] self@.samples[i],
        ) by {
            assert(start.samples.contains(start.samples.filter(keep)[i]));
            let k = choose|k: int|
                0 <= k < start.samples.len() && start.samples[k] == self@.samples[i];
            let shift = old(self)@.samples.len() - start.samples.len();
            assert(old(self)@.samples[k + shift] == self@.samples[i]);
        }
        true
    }

    /// Advance playback by `dt` ticks of wall time.
    ///
    /// Telemetry time and wall time are assumed to run at the same rate; the resync
    /// handles the case where they do not.
    ///
    /// History is dropped, but never the newest sample at or before the playback
    /// instant: it is the left-hand bracket for interpolation. A fixed-age rule
    /// would discard it across a telemetry gap, and playback would then snap to the
    /// far side of the gap instead of sweeping across it.
    pub fn advance(&mut self, dt: i64)
        requires
            old(self).wf(),
        ensures
            final(self).wf(),
            final(self)@ == old(self)@.advanced(dt),
    {
        let ghost start = self@;
        let playback: i64 = match self.playback {
            Some(p) => saturate(p as i128 + dt as i128),
            None => {
                return ;
            },
        };
        self.playback = Some(playback);
        while self.samples.len() > 2 && self.samples[1].time <= playback
            invariant
                self.wf(),
                self@.config == start.config,
                self@.stats == start.stats,
                self@.mean_interval == start.mean_interval,
                self@.playback == Some(playback),
                reachable(self@.samples, playback) == reachable(start.samples, playback),
            decreases self.samples@.len(),
        {
            let ghost before = self.samples@;
            let _ = self.samples.pop_front();
            assert(self.samples@ =~= before.drop_first());
        }
        assert(self@ =~= start.advanced(dt));
    }

    /// What to show at the current playback instant.
    pub fn playback(&self) -> (r: (Shown, Freshness))
        requires
            self.wf(),
        ensures
            r == self@.shown(),
    {
        let playback: i64 = match self.playback {
            Some(p) => p,
            None => {
                return (Shown::Nothing, Freshness::NoData);
            },
        };
        let n: usize = self.samples.len();
        if n == 0 {
            return (Shown::Nothing, Freshness::NoData);
        }
        let first: Sample = self.samples[0];
        let last: Sample = self.samples[n - 1];
        if playback < first.time {
            // Playback has not caught up to the data yet.
            return (Shown::Held(first.state), Freshness::Warming);
        }
        if playback >= last.time {
            let age: u64 = (playback as i128 - last.time as i128) as u64;
            let freshness = if age as i128 > self.config.stale_after as i128 {
                Freshness::Stale { age }
            } else {
                Freshness::Holding { age }
            };
            // Hold, never extrapolate.
            return (Shown::Held(last.state), freshness);
        }
        // The pair bracketing the playback instant: the newest sample at or before it
        // and the next one. Walk from the back: playback sits near the newest samples.
        let mut j: usize = n - 1;
        while self.samples[j - 1].time > playback
            invariant
                n == self.samples@.len(),
                0 < j < n,
                self.samples@[0].time <= playback,
                self.samples@[j as int].time > playback,
            decreases j,
        {
            j = j - 1;
        }
        proof {
            lemma_up_to_is(self@.samples, playback, j as int);
        }
        let before: Sample = self.samples[j - 1];
        let after: Sample = self.samples[j];
        let elapsed: u64 = (playback as i128 - before.time as i128) as u64;
        let span: u64 = (after.time as i128 - before.time as i128) as u64;
        let mode = if 2 * elapsed as u128 >= span as u128 {
            after.state.mode
        } else {
            before.state.mode
        };
        (
            Shown::Between { before: before.state, after: after.state, elapsed, span, mode },
            Freshness::Live,
        )
    }
}

} // verus!
