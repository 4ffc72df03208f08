//! What holds of a jitter buffer across calls.

use vstd::prelude::*;

use crate::model::buffer;
use crate::model::buffer::{BufferConfig, BufferModel, Freshness, Shown};
use crate::model::state::Sample;

verus! {

/// The sample at `i` is shown as it is.
pub open spec fn shows_sample(m: BufferModel, shown: Shown, i: int) -> bool {
    &&& 0 <= i < m.samples.len()
    &&& shown == Shown::Held(m.samples[i].state)
}

/// What is shown lies between the sample at `i` and its successor, at the playback
/// instant, which is at or after the one and before the other.
pub open spec fn shows_between(m: BufferModel, shown: Shown, i: int) -> bool {
    &&& 0 <= i
    &&& i + 1 < m.samples.len()
    &&& m.playback is Some
    &&& m.samples[i].time <= m.playback->0 < m.samples[i + 1].time
    &&& shown matches Shown::Between { before, after, elapsed, span, mode }
    &&& before == m.samples[i].state
    &&& after == m.samples[i + 1].state
    &&& elapsed == m.playback->0 - m.samples[i].time
    &&& span == m.samples[i + 1].time - m.samples[i].time
    &&& elapsed < span
    &&& mode == before.mode || mode == after.mode
    &&& elapsed == 0 ==> mode == before.mode
}

/// Playback never extrapolates: it shows a real sample unchanged, or a point from one
/// real sample to just before the next, and it claims to be live exactly in the latter
/// case. It shows nothing only before the first arrival, or where there is no room for
/// any, and warms up only until it reaches the oldest sample held.
pub proof fn playback_never_extrapolates(m: BufferModel)
    requires
        m.wf(),
    ensures
        match m.shown().0 {
            Shown::Nothing => {
                &&& m.playback is None || m.config.capacity == 0
                &&& m.shown().1 is NoData
            },
            Shown::Held(_) => {
                &&& exists|i: int| #[trigger] shows_sample(m, m.shown().0, i)
                &&& !(m.shown().1 is Live) && !(m.shown().1 is NoData)
                &&& m.shown().1 is Warming <==> m.playback->0 < m.samples.first().time
            },
            Shown::Between { .. } => {
                &&& exists|i: int| #[trigger] shows_between(m, m.shown().0, i)
                &&& m.shown().1 is Live
            },
        },
{
    let s = m.samples;
    match m.shown().0 {
        Shown::Nothing => {},
        Shown::Held(_) => {
            assert(shows_sample(m, m.shown().0, 0) || shows_sample(m, m.shown().0, s.len() - 1));
        },
        Shown::Between { .. } => {
            let p = m.playback->0;
            buffer::lemma_up_to(s, p);
            let j = buffer::up_to(s, p) as int;
            assert(s[0].time <= p && p < s[s.len() - 1].time);
            assert(0 < j < s.len());
            assert(s[j - 1].time < s[j].time);
            assert(shows_between(m, m.shown().0, j - 1));
        },
    }
}

/// From the newest sample on the shown value stays what it is while its age grows by
/// exactly the time that passes.
pub proof fn a_held_value_does_not_drift(m: BufferModel, dt: i64)
    requires
        m.wf(),
        m.samples.len() > 0,
        m.playback is Some,
        m.playback->0 >= m.samples.last().time,
        0 <= dt,
        m.playback->0 + dt <= i64::MAX,
    ensures
        m.advanced(dt).shown().0 == Shown::Held(m.samples.last().state),
        m.advanced(dt).shown().0 == m.shown().0,
        m.shown().1.ticks_past() is Some,
        m.advanced(dt).shown().1.ticks_past() == Some(
            (m.shown().1.ticks_past()->0 + dt) as u64,
        ),
{
    let q = (m.playback->0 + dt) as i64;
    lemma_reachable(m.samples, q);
    let r = buffer::reachable(m.samples, q);
    assert(r.last() == m.samples.last());
    if r.len() > 1 {
        assert(r[0].time < r[r.len() - 1].time);
    }
}

/// A retransmitted instant is ignored: the first sample to arrive is the one kept.
pub proof fn the_first_arrival_of_an_instant_wins(m: BufferModel, sample: Sample)
    requires
        m.wf(),
        exists|i: int| 0 <= i < m.samples.len() && (#[trigger] m.samples[i]).time == sample.time,
    ensures
        m.inserted(sample).samples == m.samples,
        m.inserted(sample).playback == m.playback,
        m.inserted(sample).mean_interval == m.mean_interval,
        m.inserted(sample).stats.duplicates == m.stats.duplicates.wrapping_add(1),
{
    let i = choose|i: int| 0 <= i < m.samples.len() && (#[trigger] m.samples[i]).time == sample.time;
    buffer::lemma_older_than(m.samples, sample.time);
    let at = buffer::older_than(m.samples, sample.time) as int;
    assert(at <= i);
    assert(m.samples[at].time >= sample.time);
    if at < i {
        assert(m.samples[at].time < m.samples[i].time);
    }
}

/// Two samples of different instants end up in the same places whichever arrives
/// first, as long as both fit and neither makes playback jump.
pub proof fn arrival_order_does_not_matter(m: BufferModel, a: Sample, b: Sample)
    requires
        m.wf(),
        a.time != b.time,
        !m.holds_time(a.time),
        !m.holds_time(b.time),
        m.playback is Some,
        !m.adrift(a.time),
        !m.adrift(b.time),
        m.samples.len() + 2 <= m.config.capacity,
    ensures
        m.inserted(a).inserted(b).samples == m.inserted(b).inserted(a).samples,
        m.inserted(a).inserted(b).playback == m.inserted(b).inserted(a).playback,
{
    if a.time < b.time {
        lemma_in_either_order(m, a, b);
    } else {
        lemma_in_either_order(m, b, a);
    }
}

/// One sample in its place.
spec fn with(s: Seq<Sample>, x: Sample) -> Seq<Sample> {
    s.insert(buffer::older_than(s, x.time) as int, x)
}

proof fn lemma_with(s: Seq<Sample>, x: Sample)
    requires
        buffer::time_ordered(s),
        forall|i: int| 0 <= i < s.len() ==> (#[trigger] s[i]).time != x.time,
    ensures
        buffer::time_ordered(with(s, x)),
{
    buffer::lemma_older_than(s, x.time);
}

proof fn lemma_not_held(m: BufferModel, time: i64)
    requires
        m.wf(),
        !m.holds_time(time),
    ensures
        forall|i: int| 0 <= i < m.samples.len() ==> (#[trigger] m.samples[i]).time != time,
{
    buffer::lemma_older_than(m.samples, time);
    let at = buffer::older_than(m.samples, time) as int;
    assert forall|i: int| 0 <= i < m.samples.len() implies (#[trigger] m.samples[i]).time
        != time by {
        if i > at {
            assert(m.samples[at].time < m.samples[i].time);
        }
    }
}

proof fn lemma_one_insert(m: BufferModel, x: Sample)
    requires
        m.wf(),
        !m.holds_time(x.time),
        m.playback is Some,
        !m.adrift(x.time),
        m.samples.len() < m.config.capacity,
    ensures
        m.inserted(x).wf(),
        m.inserted(x).samples == with(m.samples, x),
        m.inserted(x).samples.len() == m.samples.len() + 1,
        m.inserted(x).playback == m.playback,
        m.inserted(x).config == m.config,
{
    lemma_not_held(m, x.time);
    lemma_with(m.samples, x);
    buffer::lemma_older_than(m.samples, x.time);
}

proof fn lemma_with_differs(s: Seq<Sample>, x: Sample, time: i64)
    requires
        buffer::time_ordered(s),
        x.time != time,
        forall|i: int| 0 <= i < s.len() ==> (#[trigger] s[i]).time != time,
    ensures
        forall|i: int| 0 <= i < with(s, x).len() ==> (#[trigger] with(s, x)[i]).time != time,
{
    buffer::lemma_older_than(s, x.time);
    let p = buffer::older_than(s, x.time) as int;
    assert forall|i: int| 0 <= i < with(s, x).len() implies (#[trigger] with(s, x)[i]).time
        != time by {
        if i != p {
            assert(with(s, x)[i] == s[if i < p { i } else { i - 1 }]);
        }
    }
}

/// Placing two samples gives one sequence, whichever is placed first.
proof fn lemma_with_commutes(s: Seq<Sample>, a: Sample, b: Sample)
    requires
        buffer::time_ordered(s),
        a.time < b.time,
        forall|i: int| 0 <= i < s.len() ==> (#[trigger] s[i]).time != a.time,
        forall|i: int| 0 <= i < s.len() ==> (#[trigger] s[i]).time != b.time,
    ensures
        with(with(s, a), b) == with(with(s, b), a),
        forall|i: int| 0 <= i < with(s, a).len() ==> (#[trigger] with(s, a)[i]).time != b.time,
        forall|i: int| 0 <= i < with(s, b).len() ==> (#[trigger] with(s, b)[i]).time != a.time,
{
    lemma_with(s, a);
    lemma_with(s, b);
    buffer::lemma_older_than(s, a.time);
    buffer::lemma_older_than(s, b.time);
    let pa = buffer::older_than(s, a.time) as int;
    let pb = buffer::older_than(s, b.time) as int;
    assert(pa <= pb) by {
        if pb < pa {
            assert(s[pb].time < a.time);
        }
    }
    let sa = with(s, a);
    let sb = with(s, b);
    assert(buffer::older_than(sa, b.time) == pb + 1) by {
        assert forall|i: int| 0 <= i < pb + 1 implies (#[trigger] sa[i]).time < b.time by {
            if i > pa {
                assert(sa[i] == s[i - 1]);
            } else if i < pa {
                assert(sa[i] == s[i]);
            }
        }
        if pb + 1 < sa.len() {
            assert(sa[pb + 1] == s[pb]);
        }
        buffer::lemma_older_than_is(sa, b.time, pb + 1);
    }
    assert(buffer::older_than(sb, a.time) == pa) by {
        assert forall|i: int| 0 <= i < pa implies (#[trigger] sb[i]).time < a.time by {
            assert(sb[i] == s[i]);
        }
        if pa < pb {
            assert(sb[pa] == s[pa]);
        }
        buffer::lemma_older_than_is(sb, a.time, pa);
    }
    lemma_with_differs(s, a, b.time);
    lemma_with_differs(s, b, a.time);
    assert(sa.insert(pb + 1, b) =~= sb.insert(pa, a));
}

proof fn lemma_in_either_order(m: BufferModel, a: Sample, b: Sample)
    requires
        m.wf(),
        a.time < b.time,
        !m.holds_time(a.time),
        !m.holds_time(b.time),
        m.playback is Some,
        !m.adrift(a.time),
        !m.adrift(b.time),
        m.samples.len() + 2 <= m.config.capacity,
    ensures
        m.inserted(a).inserted(b).samples == m.inserted(b).inserted(a).samples,
        m.inserted(a).inserted(b).playback == m.inserted(b).inserted(a).playback,
{
    lemma_not_held(m, a.time);
    lemma_not_held(m, b.time);
    lemma_one_insert(m, a);
    lemma_one_insert(m, b);
    lemma_with_commutes(m.samples, a, b);
    let ma = m.inserted(a);
    let mb = m.inserted(b);
    lemma_one_insert(ma, b);
    lemma_one_insert(mb, a);
}

/// After an arrival too far from playback, playback stands one delay behind that
/// arrival, the arrival is held wherever there is room for a sample, and everything
/// else still held is of its timeline.
pub proof fn a_clock_jump_leaves_one_timeline(m: BufferModel, sample: Sample)
    requires
        m.wf(),
        !m.holds_time(sample.time),
        m.adrift(sample.time),
    ensures
        ({
            let after = m.inserted(sample);
            &&& after.playback == Some(buffer::saturated(sample.time - m.config.delay))
            &&& after.stats.resyncs == m.stats.resyncs.wrapping_add(1)
            &&& m.config.capacity >= 1 ==> after.samples.contains(sample)
            &&& forall|i: int|
                0 <= i < after.samples.len() ==> (#[trigger] after.samples[i]) == sample
                    || buffer::within(
                    after.samples[i].time as int,
                    sample.time as int,
                    m.config.resync_threshold as int,
                )
        }),
{
    let relieved = m.counted(sample).timed(sample.time).relieved(sample.time);
    let jumped = relieved.resynced(sample.time);
    let keep = |s: Sample|
        buffer::within(s.time as int, sample.time as int, m.config.resync_threshold as int);
    buffer::lemma_filter_keeps_order(relieved.samples, keep);
    let left = relieved.samples.filter(keep);
    assert(jumped.samples == left);
    buffer::lemma_older_than(left, sample.time);
    let at = buffer::older_than(left, sample.time) as int;
    let grown = left.insert(at, sample);
    assert(grown[at] == sample);
    assert forall|i: int| 0 <= i < grown.len() implies (#[trigger] grown[i]) == sample || keep(
        grown[i],
    ) by {
        if i < at {
            assert(left.contains(left[i]));
        } else if i > at {
            assert(left.contains(left[i - 1]));
        }
    }
    let after = m.inserted(sample);
    let victim: int = if at == 0 && left.len() > 0 {
        1
    } else {
        0
    };
    if grown.len() > m.config.capacity {
        assert(after.samples == grown.remove(victim));
        if m.config.capacity >= 1 {
            assert(after.samples[if victim < at { at - 1 } else { at }] == sample);
        }
        assert forall|i: int| 0 <= i < after.samples.len() implies (#[trigger] after.samples[i])
            == sample || keep(after.samples[i]) by {
            assert(after.samples[i] == grown[if i < victim { i } else { i + 1 }]);
        }
    } else {
        assert(after.samples[at] == sample);
    }
}

/// Trimming takes samples off the front only, and none whose successor is still
/// ahead of playback.
proof fn lemma_reachable(s: Seq<Sample>, p: i64)
    requires
        buffer::time_ordered(s),
    ensures
        buffer::reachable(s, p).len() <= s.len(),
        buffer::reachable(s, p) == s.skip(s.len() - buffer::reachable(s, p).len()),
        s.len() > 0 ==> buffer::reachable(s, p).len() > 0,
        s.len() > 1 ==> buffer::reachable(s, p).len() > 1,
        buffer::reachable(s, p).len() < s.len() ==> buffer::reachable(s, p)[0].time <= p,
        buffer::time_ordered(buffer::reachable(s, p)),
    decreases s.len(),
{
    if s.len() > 2 && s[1].time <= p {
        let t = s.drop_first();
        lemma_reachable(t, p);
        let r = buffer::reachable(t, p);
        assert(t.skip(t.len() - r.len()) =~= s.skip(s.len() - r.len()));
        if r.len() == t.len() {
            assert(r =~= t);
        }
    } else {
        assert(s.skip(0) =~= s);
    }
}

/// Advancing drops history only: the newest sample at or before the playback
/// instant is kept, and so is everything after it.
pub proof fn advancing_keeps_the_left_bracket(m: BufferModel, dt: i64, i: int)
    requires
        m.wf(),
        m.playback is Some,
        0 <= i < m.samples.len(),
        m.samples[i].time <= m.advanced(dt).playback->0,
        i + 1 < m.samples.len() ==> m.advanced(dt).playback->0 < m.samples[i + 1].time,
    ensures
        ({
            let after = m.advanced(dt);
            let dropped = m.samples.len() - after.samples.len();
            &&& 0 <= dropped <= i
            &&& after.samples == m.samples.skip(dropped)
        }),
{
    let p = m.advanced(dt).playback->0;
    lemma_reachable(m.samples, p);
    let r = buffer::reachable(m.samples, p);
    let dropped = m.samples.len() - r.len();
    if dropped > i {
        assert(r[0] == m.samples[dropped]);
        assert(m.samples[i].time < m.samples[dropped].time);
        if dropped > i + 1 {
            assert(m.samples[i + 1].time < m.samples[dropped].time);
        }
    }
}

/// Dropping unreachable history does not change what is shown.
pub proof fn trimming_is_invisible(m: BufferModel, dt: i64)
    requires
        m.wf(),
        m.playback is Some,
    ensures
        m.advanced(dt).shown() == (BufferModel {
            playback: m.advanced(dt).playback,
            ..m
        }).shown(),
{
    let p = m.advanced(dt).playback->0;
    let s = m.samples;
    lemma_reachable(s, p);
    let r = buffer::reachable(s, p);
    let k = s.len() - r.len();
    if s.len() > 0 {
        assert(r.last() == s.last());
        assert(r[0] == s[k]);
        if k > 0 {
            assert(s[0].time < s[k].time);
        }
        if s[0].time <= p && p < s.last().time {
            buffer::lemma_up_to(s, p);
            let j = buffer::up_to(s, p) as int;
            assert(k < j) by {
                if j <= k {
                    assert(s[k].time > p);
                }
            }
            assert(r[j - k] == s[j]);
            assert(r[j - k - 1] == s[j - 1]);
            buffer::lemma_up_to_is(r, p, j - k);
        }
    }
}

/// `x`, or whichever end of the 64-bit range it lies beyond.
pub open spec fn clamped(x: int) -> int {
    if x > 0x7FFF_FFFF_FFFF_FFFF {
        0x7FFF_FFFF_FFFF_FFFF
    } else if x < -0x8000_0000_0000_0000 {
        -0x8000_0000_0000_0000
    } else {
        x
    }
}

/// A sample of the instant `time` is among those held.
pub open spec fn has_instant(m: BufferModel, time: int) -> bool {
    exists|i: int| 0 <= i < m.samples.len() && (#[trigger] m.samples[i]).time == time
}

/// Playback stands further than the threshold from where an arrival at `time` would have
/// it. The first arrival has it where it is.
pub open spec fn strays(m: BufferModel, time: int) -> bool {
    let off = match m.playback {
        Some(p) => clamped(time - m.config.delay) - p,
        None => 0,
    };
    off > m.config.resync_threshold || -off > m.config.resync_threshold
}

/// `t` is no further than the threshold from `time`.
pub open spec fn near(m: BufferModel, t: int, time: int) -> bool {
    t - time <= m.config.resync_threshold && time - t <= m.config.resync_threshold
}

/// From the newest sample on its state is shown unchanged, with its age. It is stale at
/// every age beyond the limit, however great, and at no other.
pub proof fn a_held_value_is_stale_beyond_its_limit(m: BufferModel)
    requires
        m.wf(),
        m.samples.len() > 0,
        m.playback is Some,
        m.playback->0 >= m.samples.last().time,
    ensures
        ({
            let age = m.playback->0 - m.samples.last().time;
            &&& m.shown().0 == Shown::Held(m.samples.last().state)
            &&& age > m.config.stale_after ==> m.shown().1 == Freshness::Stale { age: age as u64 }
            &&& age <= m.config.stale_after ==> m.shown().1 == Freshness::Holding {
                age: age as u64,
            }
        }),
{
    if m.samples.len() > 1 {
        assert(m.samples[0].time < m.samples[m.samples.len() - 1].time);
    }
}

/// A stale signal stays stale, and only gets older, for as long as nothing arrives.
pub proof fn a_stale_signal_stays_stale(m: BufferModel, dt: i64)
    requires
        m.wf(),
        m.shown().1 is Stale,
        0 <= dt,
    ensures
        m.advanced(dt).shown().1 is Stale,
        m.advanced(dt).shown().1->Stale_age >= m.shown().1->Stale_age,
        m.advanced(dt).shown().0 == m.shown().0,
{
    let s = m.samples;
    let q = clamped(m.playback->0 + dt) as i64;
    lemma_reachable(s, q);
    let r = buffer::reachable(s, q);
    assert(r.last() == s.last());
    if s.len() > 1 {
        assert(s[0].time < s[s.len() - 1].time);
    }
    if r.len() > 1 {
        assert(r[0].time < r[r.len() - 1].time);
    }
}

/// Until playback reaches the oldest sample that one is shown, and the signal warms up;
/// with no sample there is nothing to show.
pub proof fn playback_waits_for_the_oldest_sample(m: BufferModel)
    requires
        m.wf(),
    ensures
        m.samples.len() == 0 ==> m.shown() == (Shown::Nothing, Freshness::NoData),
        m.samples.len() > 0 && m.playback->0 < m.samples[0].time ==> m.shown() == (
            Shown::Held(m.samples[0].state),
            Freshness::Warming,
        ),
{
}

/// From one sample to just before the next, both are shown with how far playback has
/// come between them. The mode is the first one's up to half way and the second one's
/// from there on.
pub proof fn playback_moves_from_sample_to_sample(m: BufferModel, i: int)
    requires
        m.wf(),
        0 <= i,
        i + 1 < m.samples.len(),
        m.samples[i].time <= m.playback->0 < m.samples[i + 1].time,
    ensures
        ({
            let (a, b) = (m.samples[i], m.samples[i + 1]);
            &&& m.shown().1 is Live
            &&& m.shown().0 matches Shown::Between { before, after, elapsed, span, mode }
            &&& before == a.state
            &&& after == b.state
            &&& elapsed == m.playback->0 - a.time
            &&& span == b.time - a.time
            &&& elapsed + elapsed < span ==> mode == a.state.mode
            &&& elapsed + elapsed >= span ==> mode == b.state.mode
        }),
{
    let s = m.samples;
    if i > 0 {
        assert(s[0].time < s[i].time);
    }
    if i + 1 < s.len() - 1 {
        assert(s[i + 1].time < s[s.len() - 1].time);
    }
    buffer::lemma_up_to_is(s, m.playback->0, i + 1);
}

/// Trimming stops only where two samples are left or the second is still ahead.
proof fn lemma_reachable_is_least(s: Seq<Sample>, p: i64)
    ensures
        buffer::reachable(s, p).len() > 2 ==> buffer::reachable(s, p)[1].time > p,
    decreases s.len(),
{
    if s.len() > 2 && s[1].time <= p {
        lemma_reachable_is_least(s.drop_first(), p);
    }
}

/// The passing of time moves playback by as much, within what 64 bits hold, and drops
/// the samples that playback has left behind it: those, but for the last two, whose
/// successor it has reached. It changes nothing else, and nothing before the first
/// arrival.
pub proof fn time_moves_playback_and_nothing_else(m: BufferModel, dt: i64)
    requires
        m.wf(),
    ensures
        ({
            let after = m.advanced(dt);
            let gone = m.samples.len() - after.samples.len();
            &&& m.playback is None ==> after == m
            &&& m.playback is Some ==> after.playback is Some && after.playback->0 == clamped(
                m.playback->0 + dt,
            )
            &&& after.config == m.config
            &&& after.stats == m.stats
            &&& after.mean_interval == m.mean_interval
            &&& gone >= 0
            &&& after.samples == m.samples.skip(gone)
            &&& forall|j: int|
                0 <= j < gone ==> (#[trigger] m.samples[j + 1]).time <= after.playback->0
            &&& gone > 0 ==> after.samples.len() >= 2
            &&& m.playback is Some && after.samples.len() > 2 ==> after.samples[1].time
                > after.playback->0
        }),
{
    let s = m.samples;
    if m.playback is None {
        assert(s.skip(0) =~= s);
    } else {
        let q = clamped(m.playback->0 + dt) as i64;
        lemma_reachable(s, q);
        lemma_reachable_is_least(s, q);
        let r = buffer::reachable(s, q);
        let gone = s.len() - r.len();
        assert forall|j: int| 0 <= j < gone implies (#[trigger] s[j + 1]).time <= q by {
            assert(r[0] == s[gone]);
            if j + 1 < gone {
                assert(s[j + 1].time < s[gone].time);
            }
        }
    }
}

proof fn lemma_strays(m: BufferModel, sample: Sample)
    requires
        m.wf(),
    ensures
        m.counted(sample).timed(sample.time).adrift(sample.time) == strays(m, sample.time as int),
{
}

proof fn lemma_has_instant(m: BufferModel, time: i64)
    requires
        m.wf(),
    ensures
        m.holds_time(time) == has_instant(m, time as int),
{
    if m.holds_time(time) {
        buffer::lemma_older_than(m.samples, time);
        assert(m.samples[buffer::older_than(m.samples, time) as int].time == time);
    } else {
        lemma_not_held(m, time);
    }
}

/// What one arrival adds to the counters. An instant already held counts as a duplicate
/// and nothing more is done with it; any other counts as inserted, and as a jump of the
/// clock where it strays too far from playback. An arrival older than a sample held
/// counts as reordered either way.
pub proof fn each_arrival_is_counted_once(m: BufferModel, sample: Sample)
    requires
        m.wf(),
    ensures
        ({
            let after = m.inserted(sample);
            let seen = has_instant(m, sample.time as int);
            let late = exists|i: int|
                0 <= i < m.samples.len() && (#[trigger] m.samples[i]).time > sample.time;
            let jumps = !seen && strays(m, sample.time as int);
            &&& after.config == m.config
            &&& after.stats.reordered == (if late {
                m.stats.reordered.wrapping_add(1)
            } else {
                m.stats.reordered
            })
            &&& after.stats.duplicates == (if seen {
                m.stats.duplicates.wrapping_add(1)
            } else {
                m.stats.duplicates
            })
            &&& after.stats.inserted == (if seen {
                m.stats.inserted
            } else {
                m.stats.inserted.wrapping_add(1)
            })
            &&& after.stats.resyncs == (if jumps {
                m.stats.resyncs.wrapping_add(1)
            } else {
                m.stats.resyncs
            })
            &&& seen ==> after.samples == m.samples && after.playback == m.playback
                && after.mean_interval == m.mean_interval && after.stats.evicted
                == m.stats.evicted
        }),
{
    lemma_has_instant(m, sample.time);
    let s = m.samples;
    let late = exists|i: int| 0 <= i < s.len() && (#[trigger] s[i]).time > sample.time;
    if late {
        let i = choose|i: int| 0 <= i < s.len() && (#[trigger] s[i]).time > sample.time;
        if i < s.len() - 1 {
            assert(s[i].time < s[s.len() - 1].time);
        }
    } else if s.len() > 0 {
        assert(s[s.len() - 1].time <= sample.time);
    }
    lemma_strays(m, sample);
}

/// The first arrival has playback start one delay behind it, within what 64 bits hold,
/// and so has every one that strays. Otherwise an arrival leaves playback where it is.
pub proof fn playback_starts_one_delay_behind(m: BufferModel, sample: Sample)
    requires
        m.wf(),
        !has_instant(m, sample.time as int),
    ensures
        ({
            let after = m.inserted(sample);
            &&& after.playback is Some
            &&& m.playback is None || strays(m, sample.time as int) ==> after.playback->0
                == clamped(sample.time - m.config.delay)
            &&& m.playback is Some && !strays(m, sample.time as int) ==> after.playback
                == m.playback
        }),
{
    lemma_has_instant(m, sample.time);
    lemma_strays(m, sample);
}

/// The interval from the newest sample to one after it counts for a tenth of the mean,
/// and is the mean where there was none; any other arrival leaves the mean as it is.
pub proof fn only_a_newer_sample_moves_the_mean(m: BufferModel, sample: Sample)
    requires
        m.wf(),
    ensures
        ({
            let after = m.inserted(sample).mean_interval;
            let n = m.samples.len() as int;
            let newer = n > 0 && m.samples[n - 1].time < sample.time;
            let d = (sample.time - m.samples[n - 1].time) * 1_000_000_000_000_000_000;
            &&& !newer ==> after == m.mean_interval
            &&& newer && m.mean_interval is None ==> after is Some && after->0 == d
            &&& newer && m.mean_interval is Some ==> after is Some && 10 * after->0 <= 9
                * m.mean_interval->0 + d < 10 * after->0 + 10
        }),
{
    lemma_has_instant(m, sample.time);
    let n = m.samples.len() as int;
    if n > 0 && m.samples[n - 1].time < sample.time {
        let d = sample.time - m.samples[n - 1].time;
        assert(0 < d <= u64::MAX);
        if has_instant(m, sample.time as int) {
            let i = choose|i: int|
                0 <= i < m.samples.len() && (#[trigger] m.samples[i]).time == sample.time;
            if i < n - 1 {
                assert(m.samples[i].time < m.samples[n - 1].time);
            }
        }
    }
}

proof fn lemma_grown(s: Seq<Sample>, sample: Sample)
    requires
        buffer::time_ordered(s),
        forall|i: int| 0 <= i < s.len() ==> (#[trigger] s[i]).time != sample.time,
    ensures
        ({
            let grown = with(s, sample);
            &&& grown.len() == s.len() + 1
            &&& forall|i: int, j: int|
                0 <= i < j < grown.len() ==> (#[trigger] grown[i]).time < (#[trigger] grown[j]).time
            &&& grown.contains(sample)
            &&& forall|i: int| 0 <= i < s.len() ==> grown.contains(#[trigger] s[i])
            &&& forall|i: int|
                0 <= i < grown.len() ==> #[trigger] grown[i] == sample || s.contains(grown[i])
        }),
{
    lemma_with(s, sample);
    buffer::lemma_older_than(s, sample.time);
    let at = buffer::older_than(s, sample.time) as int;
    let grown = with(s, sample);
    assert(grown[at] == sample);
    assert forall|i: int| 0 <= i < s.len() implies grown.contains(#[trigger] s[i]) by {
        assert(grown[if i < at { i } else { i + 1 }] == s[i]);
    }
    assert forall|i: int| 0 <= i < grown.len() implies #[trigger] grown[i] == sample
        || s.contains(grown[i]) by {
        if i < at {
            assert(grown[i] == s[i]);
        } else if i > at {
            assert(grown[i] == s[i - 1]);
        }
    }
}

/// An arrival that there is room for is held from then on, in its place in time, and
/// everything else with it.
pub proof fn an_arrival_takes_its_place_in_time(m: BufferModel, sample: Sample)
    requires
        m.wf(),
        !has_instant(m, sample.time as int),
        !strays(m, sample.time as int),
        m.samples.len() < m.config.capacity,
    ensures
        ({
            let after = m.inserted(sample);
            &&& after.samples.len() == m.samples.len() + 1
            &&& forall|i: int, j: int|
                0 <= i < j < after.samples.len() ==> (#[trigger] after.samples[i]).time < (
                #[trigger] after.samples[j]).time
            &&& after.samples.contains(sample)
            &&& forall|i: int|
                0 <= i < m.samples.len() ==> after.samples.contains(#[trigger] m.samples[i])
            &&& after.stats.evicted == m.stats.evicted
        }),
{
    lemma_has_instant(m, sample.time);
    lemma_strays(m, sample);
    lemma_not_held(m, sample.time);
    lemma_grown(m.samples, sample);
    assert(m.inserted(sample).samples == with(m.samples, sample));
}

/// A full buffer keeps the newest of what it held and what arrived, and counts the one
/// that goes.
pub proof fn a_full_buffer_keeps_the_newest(m: BufferModel, sample: Sample)
    requires
        m.wf(),
        !has_instant(m, sample.time as int),
        !strays(m, sample.time as int),
        m.samples.len() == m.config.capacity,
    ensures
        ({
            let after = m.inserted(sample);
            &&& after.samples.len() == m.samples.len()
            &&& forall|i: int, j: int|
                0 <= i < j < after.samples.len() ==> (#[trigger] after.samples[i]).time < (
                #[trigger] after.samples[j]).time
            &&& forall|i: int|
                0 <= i < after.samples.len() ==> #[trigger] after.samples[i] == sample
                    || m.samples.contains(after.samples[i])
            &&& !after.samples.contains(sample) ==> forall|j: int|
                0 <= j < after.samples.len() ==> sample.time < (#[trigger] after.samples[j]).time
            &&& forall|i: int, j: int|
                0 <= i < m.samples.len() && 0 <= j < after.samples.len()
                    && !after.samples.contains(#[trigger] m.samples[i]) ==> m.samples[i].time < (
                #[trigger] after.samples[j]).time
            &&& after.stats.evicted == m.stats.evicted.wrapping_add(1)
        }),
{
    lemma_has_instant(m, sample.time);
    lemma_strays(m, sample);
    lemma_not_held(m, sample.time);
    lemma_grown(m.samples, sample);
    let grown = with(m.samples, sample);
    let after = m.inserted(sample);
    assert(after.samples == grown.remove(0));
    assert forall|x: Sample| grown.contains(x) && !after.samples.contains(x) implies x
        == grown[0] by {
        let k = choose|k: int| 0 <= k < grown.len() && grown[k] == x;
        if k > 0 {
            assert(after.samples[k - 1] == x);
        }
    }
    assert forall|j: int| 0 <= j < after.samples.len() implies grown[0].time < (
    #[trigger] after.samples[j]).time && after.samples[j] == grown[j + 1] by {
        assert(grown[0].time < grown[j + 1].time);
    }
    assert forall|i: int| 0 <= i < m.samples.len() implies grown.contains(
        #[trigger] m.samples[i],
    ) by {}
}

/// A filter that everything passes changes nothing, and any other takes something out.
proof fn lemma_filter_of_all(s: Seq<Sample>, keep: spec_fn(Sample) -> bool)
    ensures
        (forall|i: int| 0 <= i < s.len() ==> keep(#[trigger] s[i])) ==> s.filter(keep) == s,
        s.filter(keep).len() <= s.len(),
        s.filter(keep).len() == s.len() ==> forall|i: int|
            0 <= i < s.len() ==> keep(#[trigger] s[i]),
    decreases s.len(),
{
    reveal(Seq::filter);
    if s.len() > 0 {
        let head = s.drop_last();
        lemma_filter_of_all(head, keep);
        if forall|i: int| 0 <= i < s.len() ==> keep(#[trigger] s[i]) {
            assert forall|i: int| 0 <= i < head.len() implies keep(#[trigger] head[i]) by {
                assert(head[i] == s[i]);
            }
            assert(s.filter(keep) =~= s);
        }
        if s.filter(keep).len() == s.len() {
            assert forall|i: int| 0 <= i < s.len() implies keep(#[trigger] s[i]) by {
                if i < head.len() {
                    assert(head[i] == s[i]);
                }
            }
        }
    } else {
        assert(s.filter(keep) =~= s);
    }
}

/// A sample before all others goes in front of them.
proof fn lemma_earliest_first(s: Seq<Sample>, x: Sample)
    requires
        s.len() > 0,
        s[0].time > x.time,
    ensures
        with(s, x) == seq![x] + s,
{
    assert(with(s, x) =~= seq![x] + s);
}

/// The samples that a jump to `sample` leaves, before it is put among them.
spec fn left_by_jump(m: BufferModel, sample: Sample) -> Seq<Sample> {
    m.counted(sample).timed(sample.time).relieved(sample.time).resynced(sample.time).samples
}

/// The oldest sample makes room for a later one.
spec fn makes_room(m: BufferModel, sample: Sample) -> bool {
    m.samples.len() == m.config.capacity && m.samples[0].time < sample.time
}

#[verifier::rlimit(40)]
#[verifier::spinoff_prover]
proof fn lemma_left_by_jump(m: BufferModel, sample: Sample)
    requires
        m.wf(),
        m.config.capacity > 0,
        !has_instant(m, sample.time as int),
    ensures
        ({
            let s = m.samples;
            let left = left_by_jump(m, sample);
            let from: int = if makes_room(m, sample) {
                1
            } else {
                0
            };
            &&& buffer::time_ordered(left)
            &&& left.len() <= s.len() - from
            &&& forall|k: int|
                0 <= k < left.len() ==> s.skip(from).contains(#[trigger] left[k]) && near(
                    m,
                    left[k].time as int,
                    sample.time as int,
                ) && left[k].time != sample.time
            &&& forall|i: int|
                from <= i < s.len() && near(
                    m,
                    (#[trigger] s[i]).time as int,
                    sample.time as int,
                ) ==> left.contains(s[i])
            &&& from == 0 && (forall|i: int|
                0 <= i < s.len() ==> near(
                    m,
                    (#[trigger] s[i]).time as int,
                    sample.time as int,
                )) ==> left == s
            &&& from == 0 && left.len() == s.len() ==> forall|i: int|
                0 <= i < s.len() ==> near(
                    m,
                    (#[trigger] s[i]).time as int,
                    sample.time as int,
                )
        }),
{
    lemma_has_instant(m, sample.time);
    lemma_not_held(m, sample.time);
    let s = m.samples;
    let rs = m.counted(sample).timed(sample.time).relieved(sample.time).samples;
    let from: int = if makes_room(m, sample) {
        1
    } else {
        0
    };
    assert(rs =~= s.skip(from));
    let keep = |x: Sample|
        buffer::within(x.time as int, sample.time as int, m.config.resync_threshold as int);
    let left = left_by_jump(m, sample);
    assert(left == rs.filter(keep));
    buffer::lemma_filter_keeps_order(rs, keep);
    lemma_filter_of_all(rs, keep);
    assert forall|k: int| 0 <= k < left.len() implies s.skip(from).contains(#[trigger] left[k])
        && near(m, left[k].time as int, sample.time as int) && left[k].time != sample.time by {
        assert(rs.contains(left[k]) && keep(left[k]));
        let r = choose|r: int| 0 <= r < rs.len() && rs[r] == left[k];
        assert(s[r + from] == left[k]);
    }
    assert forall|i: int|
        from <= i < s.len() && near(
            m,
            (#[trigger] s[i]).time as int,
            sample.time as int,
        ) implies left.contains(s[i]) by {
        assert(rs[i - from] == s[i]);
        rs.lemma_filter_contains(keep, i - from);
    }
    if from == 0 {
        assert(rs =~= s);
    }
}

/// How a jump ends: the sample is put in its place, and with no room for it the oldest of
/// the others goes.
proof fn lemma_jump(m: BufferModel, sample: Sample)
    requires
        m.wf(),
        m.config.capacity > 0,
        !has_instant(m, sample.time as int),
        strays(m, sample.time as int),
    ensures
        ({
            let after = m.inserted(sample);
            let left = left_by_jump(m, sample);
            let grown = with(left, sample);
            let full = grown.len() > m.config.capacity;
            &&& !full ==> after.samples == grown
            &&& full && left.len() > 0 && left[0].time > sample.time ==> after.samples
                == grown.remove(1)
            &&& after.stats.evicted == (if full && makes_room(m, sample) {
                m.stats.evicted.wrapping_add(1).wrapping_add(1)
            } else if full || makes_room(m, sample) {
                m.stats.evicted.wrapping_add(1)
            } else {
                m.stats.evicted
            })
        }),
{
    lemma_has_instant(m, sample.time);
    lemma_strays(m, sample);
}

/// After an arrival that strays nothing is held but that arrival and samples near it.
/// What was near it and there was room for is still held; a full buffer loses its oldest
/// sample, where that is older than the arrival or every sample is near it, and counts
/// it.
#[verifier::rlimit(40)]
#[verifier::spinoff_prover]
pub proof fn a_clock_jump_keeps_what_is_near(m: BufferModel, sample: Sample)
    requires
        m.wf(),
        m.config.capacity > 0,
        !has_instant(m, sample.time as int),
        strays(m, sample.time as int),
    ensures
        ({
            let after = m.inserted(sample);
            let full = m.samples.len() == m.config.capacity;
            let all_near = forall|i: int|
                0 <= i < m.samples.len() ==> near(
                    m,
                    (#[trigger] m.samples[i]).time as int,
                    sample.time as int,
                );
            let loses = full && (m.samples[0].time < sample.time || all_near);
            &&& after.samples.contains(sample)
            &&& forall|i: int, j: int|
                0 <= i < j < after.samples.len() ==> (#[trigger] after.samples[i]).time < (
                #[trigger] after.samples[j]).time
            &&& forall|i: int|
                0 <= i < after.samples.len() ==> #[trigger] after.samples[i] == sample || (
                m.samples.contains(after.samples[i]) && near(
                    m,
                    after.samples[i].time as int,
                    sample.time as int,
                ))
            &&& forall|i: int|
                (if loses {
                    1
                } else {
                    0int
                }) <= i < m.samples.len() && near(
                    m,
                    (#[trigger] m.samples[i]).time as int,
                    sample.time as int,
                ) ==> after.samples.contains(m.samples[i])
            &&& loses ==> !after.samples.contains(m.samples[0])
            &&& after.stats.evicted == (if loses {
                m.stats.evicted.wrapping_add(1)
            } else {
                m.stats.evicted
            })
        }),
{
    lemma_has_instant(m, sample.time);
    lemma_not_held(m, sample.time);
    lemma_left_by_jump(m, sample);
    lemma_jump(m, sample);
    let s = m.samples;
    let left = left_by_jump(m, sample);
    lemma_grown(left, sample);
    let grown = with(left, sample);
    let after = m.inserted(sample);
    let older = makes_room(m, sample);
    let from: int = if older {
        1
    } else {
        0
    };
    let all_near = forall|i: int|
        0 <= i < s.len() ==> near(m, (#[trigger] s[i]).time as int, sample.time as int);
    let loses = s.len() == m.config.capacity && (s[0].time < sample.time || all_near);
    assert forall|k: int| 0 <= k < grown.len() && #[trigger] grown[k] != sample implies s.contains(
        grown[k],
    ) && near(m, grown[k].time as int, sample.time as int) && (older ==> grown[k] != s[0]) by {
        assert(left.contains(grown[k]));
        let j = choose|j: int| 0 <= j < left.len() && left[j] == grown[k];
        assert(s.skip(from).contains(left[j]));
        let r = choose|r: int| 0 <= r < s.skip(from).len() && s.skip(from)[r] == left[j];
        assert(s[r + from] == grown[k]);
        if older {
            assert(s[0].time < s[r + 1].time);
        }
    }
    if loses && !older {
        assert(left == s);
        lemma_earliest_first(s, sample);
        assert(grown[0] == sample && grown[1] == s[0]);
        assert(after.samples == grown.remove(1));
        assert(after.samples[0] == sample);
        assert forall|i: int| 1 <= i < s.len() implies after.samples.contains(
            #[trigger] s[i],
        ) by {
            assert(after.samples[i] == s[i]);
        }
        assert forall|k: int| 0 <= k < after.samples.len() implies #[trigger] after.samples[k]
            == grown[if k < 1 {
            k
        } else {
            k + 1
        }] by {}
        assert forall|k: int| 0 <= k < after.samples.len() implies #[trigger] after.samples[k]
            != s[0] by {
            if k > 0 {
                assert(grown[1].time < grown[k + 1].time);
            }
        }
    } else {
        assert(after.samples == grown);
        assert forall|i: int|
            from <= i < s.len() && near(
                m,
                (#[trigger] s[i]).time as int,
                sample.time as int,
            ) implies after.samples.contains(s[i]) by {
            assert(left.contains(s[i]));
            let j = choose|j: int| 0 <= j < left.len() && left[j] == s[i];
            assert(grown.contains(left[j]));
        }
        if loses {
            assert(sample != s[0]);
        }
    }
}

/// Where there is no room for any sample none is ever held, and each arrival counts as
/// one that had to go.
#[verifier::rlimit(40)]
#[verifier::spinoff_prover]
pub proof fn without_room_every_arrival_goes(m: BufferModel, sample: Sample)
    requires
        m.wf(),
        m.config.capacity == 0,
    ensures
        m.inserted(sample).samples.len() == 0,
        m.inserted(sample).stats.evicted == m.stats.evicted.wrapping_add(1),
        m.inserted(sample).shown() == (Shown::Nothing, Freshness::NoData),
{
    lemma_has_instant(m, sample.time);
    lemma_strays(m, sample);
    assert(m.samples =~= Seq::empty());
    reveal(Seq::filter);
}

/// Left to itself a buffer plays a fifth of a second behind, calls a second without
/// telemetry stale, holds 256 samples, and jumps beyond five seconds; it starts with
/// nothing held and nothing counted.
pub proof fn a_buffer_starts_empty(config: BufferConfig)
    ensures
        BufferConfig::standard().delay * 5 == 1_024_000_000,
        BufferConfig::standard().stale_after == 1_024_000_000,
        BufferConfig::standard().capacity == 256,
        BufferConfig::standard().resync_threshold == 5 * 1_024_000_000,
        ({
            let m = BufferModel::empty(config);
            &&& m.wf()
            &&& m.config == config
            &&& m.samples.len() == 0
            &&& m.playback is None
            &&& m.mean_interval is None
            &&& m.stats.inserted == 0
            &&& m.stats.reordered == 0
            &&& m.stats.duplicates == 0
            &&& m.stats.evicted == 0
            &&& m.stats.resyncs == 0
            &&& m.shown() == (Shown::Nothing, Freshness::NoData)
        }),
{
}

/// Only a held value has an age.
pub proof fn only_a_held_value_has_an_age(f: Freshness, n: u64)
    ensures
        f.ticks_past() == Some(n) <==> f == (Freshness::Holding { age: n }) || f == (
        Freshness::Stale { age: n }),
        f.ticks_past() is None <==> f is NoData || f is Warming || f is Live,
{
}

/// A buffer tuned to a telemetry period plays two periods behind and calls five without
/// telemetry stale, within what 64 bits hold; the rest of the tuning stays.
pub proof fn a_period_sets_the_delay(period: i64)
    ensures
        ({
            let c = BufferConfig::of_period(period);
            &&& c.delay == clamped(period + period)
            &&& c.stale_after == clamped(5 * period)
            &&& c.capacity == 256
            &&& c.resync_threshold == 5 * 1_024_000_000
        }),
{
}

/// A mean is known once an interval has been averaged, unless it is zero.
pub proof fn a_mean_of_zero_is_unknown(m: BufferModel)
    ensures
        m.known_mean() is None <==> m.mean_interval is None || m.mean_interval == Some(0u128),
        m.known_mean() is Some ==> m.known_mean() == m.mean_interval,
{
}

/// What is shown counts as interpolated exactly where it lies between two samples.
pub proof fn only_what_lies_between_is_live(m: BufferModel)
    requires
        m.wf(),
    ensures
        m.shown().1.interpolates() <==> m.samples.len() > 0 && m.samples.first().time
            <= m.playback->0 < m.samples.last().time,
{
}

} // verus!
