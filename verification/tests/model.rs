use cfs_telemetry::model::{
    BufferConfig, Freshness, JitterBuffer, Mode, Quat, Sample, Shown, Single, SpacecraftState,
    MEAN_PARTS,
};

/// Seconds in ticks.
fn ticks(seconds: f64) -> i64 {
    (seconds * 1_024_000_000.0).round() as i64
}

fn single(v: f32) -> Single {
    Single(v.to_bits())
}

fn value(s: Single) -> f32 {
    f32::from_bits(s.0)
}

fn sample(time: f64, solar: f32) -> Sample {
    Sample {
        time: ticks(time),
        seq_count: (time * 10.0) as u16,
        state: SpacecraftState {
            attitude: Quat::identity(),
            solar_array_deg: single(solar),
            deploy_progress: single(0.0),
            wheel_rpm: [single(0.0); 4],
            mode: Mode::Nominal,
        },
    }
}

fn cfg() -> BufferConfig {
    BufferConfig {
        delay: ticks(0.2),
        stale_after: ticks(1.0),
        capacity: 16,
        resync_threshold: ticks(5.0),
    }
}

/// The array angle on display.
fn solar(shown: Shown) -> f32 {
    match shown {
        Shown::Nothing => 0.0,
        Shown::Held(s) => value(s.solar_array_deg),
        Shown::Between { before, after, elapsed, span, .. } => {
            let (a, b) = (value(before.solar_array_deg), value(after.solar_array_deg));
            a + (b - a) * (elapsed as f64 / span as f64) as f32
        }
    }
}

#[test]
fn reports_no_data_before_anything_arrives() {
    let b = JitterBuffer::new(cfg());
    assert_eq!(b.playback().1, Freshness::NoData);
}

#[test]
fn interpolates_between_bracketing_samples() {
    let mut b = JitterBuffer::new(cfg());
    for i in 0..5 {
        b.insert(sample(10.0 + i as f64 * 0.1, i as f32 * 10.0));
    }
    // First sample at 10.0 put playback at 9.8; advance to exactly 10.15,
    // halfway between the samples at 10.1 (10 deg) and 10.2 (20 deg).
    b.advance(ticks(0.35));
    let (state, freshness) = b.playback();
    assert_eq!(freshness, Freshness::Live);
    assert!((solar(state) - 15.0).abs() < 0.01, "got {}", solar(state));
}

#[test]
fn holds_then_goes_stale_without_extrapolating() {
    let mut b = JitterBuffer::new(cfg());
    b.insert(sample(10.0, 0.0));
    b.insert(sample(10.1, 10.0));

    b.advance(ticks(0.35)); // playback 10.15 -> past the newest sample at 10.1
    let (held, freshness) = b.playback();
    assert!(matches!(freshness, Freshness::Holding { .. }), "got {freshness:?}");
    assert_eq!(solar(held), 10.0, "must hold, not extrapolate past 10 deg");

    b.advance(ticks(2.0));
    let (still_held, freshness) = b.playback();
    assert!(matches!(freshness, Freshness::Stale { .. }), "got {freshness:?}");
    assert_eq!(solar(still_held), 10.0, "stale value must not drift");
    assert!(freshness.age().unwrap() as i64 > ticks(1.0));
}

#[test]
fn accepts_out_of_order_arrivals() {
    let mut b = JitterBuffer::new(cfg());
    b.insert(sample(10.0, 0.0));
    b.insert(sample(10.2, 20.0));
    b.insert(sample(10.1, 10.0)); // late

    assert_eq!(b.stats().reordered, 1);
    let times: Vec<i64> = (0..b.len()).map(|i| b.sample(i).unwrap().time).collect();
    assert_eq!(times, vec![ticks(10.0), ticks(10.1), ticks(10.2)], "buffer must stay time-ordered");

    b.advance(ticks(0.25)); // playback 10.05, between 10.0 and 10.1
    let (state, freshness) = b.playback();
    assert_eq!(freshness, Freshness::Live);
    assert!((solar(state) - 5.0).abs() < 0.01, "got {}", solar(state));
}

#[test]
fn ignores_duplicate_timestamps() {
    let mut b = JitterBuffer::new(cfg());
    b.insert(sample(10.0, 0.0));
    b.insert(sample(10.2, 20.0));
    b.insert(sample(10.0, 99.0)); // retransmit with different data

    assert_eq!(b.stats().duplicates, 1);
    assert_eq!(b.len(), 2);
    assert_eq!(value(b.sample(0).unwrap().state.solar_array_deg), 0.0, "first arrival wins");
}

#[test]
fn evicts_beyond_capacity() {
    let mut b = JitterBuffer::new(BufferConfig { capacity: 4, ..cfg() });
    for i in 0..10 {
        b.insert(sample(10.0 + i as f64 * 0.1, i as f32));
    }
    assert_eq!(b.len(), 4);
    assert_eq!(b.stats().evicted, 6);
}

#[test]
fn resyncs_when_the_clock_jumps_backwards() {
    let mut b = JitterBuffer::new(cfg());
    for i in 0..5 {
        b.insert(sample(1_000_000.0 + i as f64 * 0.1, i as f32));
    }
    assert_eq!(b.stats().resyncs, 0);

    b.insert(sample(10.0, 99.0)); // clock restarted
    assert_eq!(b.stats().resyncs, 1);

    b.insert(sample(10.1, 98.0));
    b.advance(ticks(0.1));
    let (_, freshness) = b.playback();
    assert!(
        matches!(freshness, Freshness::Live | Freshness::Warming | Freshness::Holding { .. }),
        "should track the new timeline, got {freshness:?}"
    );
}

#[test]
fn estimates_the_telemetry_rate() {
    let mut b = JitterBuffer::new(cfg());
    for i in 0..20 {
        b.insert(sample(10.0 + i as f64 * 0.1, i as f32));
    }
    let mean = b.mean_interval().expect("rate after 20 samples") as f64 / MEAN_PARTS as f64;
    let hz = 1_024_000_000.0 / mean;
    assert!((hz - 10.0).abs() < 0.5, "expected ~10 Hz, got {hz}");
}

#[test]
fn survives_a_gap_and_recovers_to_live() {
    let mut b = JitterBuffer::new(cfg());
    b.insert(sample(10.0, 0.0));
    b.insert(sample(10.1, 10.0));
    b.advance(ticks(0.35));
    assert!(matches!(b.playback().1, Freshness::Holding { .. }));

    // Telemetry resumes within the resync threshold.
    b.insert(sample(10.6, 60.0));
    b.insert(sample(10.7, 70.0));
    b.advance(ticks(0.4)); // playback 10.15 -> 10.55, inside the gap
    let (state, freshness) = b.playback();
    // Sweeps across the gap between the last sample before it (10.1, 10 deg) and
    // the first after it (10.6, 60 deg) rather than snapping.
    assert_eq!(freshness, Freshness::Live, "should recover once data resumes");
    assert!((solar(state) - 55.0).abs() < 0.5, "got {}", solar(state));
}

/// The mode on display between two samples, `part` hundredths of the way.
fn mode_between(part: i64) -> Mode {
    let mut b = JitterBuffer::new(cfg());
    let mut first = sample(10.0, 0.0);
    first.state.mode = Mode::Safe;
    b.insert(first);
    b.insert(sample(11.0, 0.0));
    b.advance(ticks(0.2) + part * ticks(0.01));
    match b.playback().0 {
        Shown::Between { mode, .. } => mode,
        other => panic!("not between two samples: {other:?}"),
    }
}

#[test]
fn mode_snaps_rather_than_blending() {
    assert_eq!(mode_between(49), Mode::Safe);
    assert_eq!(mode_between(51), Mode::Nominal);
}

#[test]
fn a_rate_sets_the_delay_and_the_patience() {
    let c = BufferConfig::for_rate(ticks(0.1));
    assert_eq!(c.delay, ticks(0.2));
    assert_eq!(c.stale_after, ticks(0.5));
    assert_eq!(c.capacity, 256);
    assert_eq!(c.resync_threshold, ticks(5.0));
}

#[test]
fn playback_warms_up_on_the_oldest_sample() {
    let mut b = JitterBuffer::new(cfg());
    b.insert(sample(10.0, 5.0));
    b.insert(sample(10.1, 15.0));
    let (shown, freshness) = b.playback();
    assert_eq!(freshness, Freshness::Warming);
    assert_eq!(solar(shown), 5.0);
}

#[test]
fn a_duplicate_of_the_newest_is_not_counted_as_reordered() {
    let mut b = JitterBuffer::new(cfg());
    b.insert(sample(10.0, 5.0));
    b.insert(sample(10.0, 6.0));
    assert_eq!(b.stats().duplicates, 1);
    assert_eq!(b.stats().reordered, 0);
}

#[test]
fn arrival_order_does_not_change_what_is_shown() {
    let samples = [sample(10.0, 0.0), sample(10.1, 10.0), sample(10.2, 20.0), sample(10.3, 30.0)];
    let mut in_order = JitterBuffer::new(cfg());
    for s in samples {
        in_order.insert(s);
    }
    let mut shuffled = JitterBuffer::new(cfg());
    for i in [0usize, 2, 1, 3] {
        shuffled.insert(samples[i]);
    }
    in_order.advance(ticks(0.33));
    shuffled.advance(ticks(0.33));
    assert_eq!(in_order.playback(), shuffled.playback());
}

#[test]
fn playback_on_a_sample_is_live_and_shows_it() {
    let config = BufferConfig { delay: ticks(0.25), ..cfg() };
    let mut b = JitterBuffer::new(config);
    b.insert(sample(10.0, 0.0));
    b.insert(sample(10.25, 10.0));
    b.insert(sample(10.5, 20.0));
    b.advance(ticks(0.25)); // exactly on the oldest
    assert_eq!(b.playback().1, Freshness::Live);
    assert_eq!(solar(b.playback().0), 0.0);
    b.advance(ticks(0.25)); // exactly on the middle one, the oldest now trimmed
    assert_eq!(b.len(), 2);
    assert_eq!(b.playback().1, Freshness::Live);
    assert_eq!(solar(b.playback().0), 10.0);
    b.advance(ticks(0.25)); // exactly on the newest
    assert_eq!(b.playback().1, Freshness::Holding { age: 0 });
    assert_eq!(solar(b.playback().0), 20.0);
}

#[test]
fn playback_on_the_only_sample_holds_it() {
    let mut b = JitterBuffer::new(cfg());
    b.insert(sample(10.0, 5.0));
    assert_eq!(b.playback().1, Freshness::Warming);
    b.advance(ticks(0.2));
    assert_eq!(b.playback().1, Freshness::Holding { age: 0 });
    assert_eq!(solar(b.playback().0), 5.0);
}

#[test]
fn trimming_does_not_change_what_is_shown() {
    let config = BufferConfig { delay: ticks(0.25), ..cfg() };
    let (mut trimmed, mut whole) = (JitterBuffer::new(config), JitterBuffer::new(config));
    for (t, v) in [(10.0, 0.0), (10.25, 10.0)] {
        trimmed.insert(sample(t, v));
        whole.insert(sample(t, v));
    }
    trimmed.insert(sample(10.5, 20.0));
    trimmed.advance(ticks(0.5));
    whole.advance(ticks(0.5)); // two samples left: nothing to trim
    whole.insert(sample(10.5, 20.0));
    assert_eq!((trimmed.len(), whole.len()), (2, 3));
    assert_eq!(trimmed.playback(), whole.playback());
}

#[test]
fn a_clock_that_jumps_back_into_a_full_buffer_is_followed() {
    let mut b = JitterBuffer::new(BufferConfig { capacity: 4, ..cfg() });
    for i in 0..4 {
        b.insert(sample(1_000_000.0 + i as f64 * 0.1, i as f32));
    }
    b.insert(sample(10.0, 99.0));
    assert_eq!(b.stats().resyncs, 1);
    assert_eq!(b.stats().evicted, 0);
    assert_eq!(b.len(), 1);
    assert_eq!(b.playback().1, Freshness::Warming);
    assert_eq!(solar(b.playback().0), 99.0);
}

#[test]
fn a_jump_never_costs_the_arrival_its_place() {
    let mut b = JitterBuffer::new(BufferConfig { capacity: 2, delay: 0, ..cfg() });
    b.insert(sample(14.0, 1.0));
    b.insert(sample(15.0, 2.0));
    b.advance(ticks(16.0)); // playback at 30, far from what comes next
    b.insert(sample(12.0, 3.0)); // within reach of both samples held
    assert_eq!(b.stats().resyncs, 1);
    assert_eq!(b.stats().evicted, 1);
    let times: Vec<i64> = (0..b.len()).map(|i| b.sample(i).unwrap().time).collect();
    assert_eq!(times, vec![ticks(12.0), ticks(15.0)]);
}

#[test]
fn a_buffer_without_room_shows_nothing() {
    let mut b = JitterBuffer::new(BufferConfig { capacity: 0, ..cfg() });
    b.insert(sample(10.0, 5.0));
    assert_eq!((b.len(), b.stats().evicted), (0, 1));
    assert_eq!(b.playback(), (Shown::Nothing, Freshness::NoData));
}

#[test]
fn the_mean_interval_keeps_parts_of_a_tick() {
    let mut b = JitterBuffer::new(cfg());
    for subseconds in [0i64, 1, 3] {
        b.insert(Sample { time: subseconds * 15_625, ..sample(0.0, 0.0) });
    }
    // Nine tenths of 15625 ticks and one of 31250.
    assert_eq!(b.mean_interval(), Some(171_875 * MEAN_PARTS / 10));
}

#[test]
fn a_forward_jump_into_a_full_buffer_evicts_the_oldest() {
    let mut b = JitterBuffer::new(BufferConfig { capacity: 1, ..cfg() });
    b.insert(sample(10.0, 1.0));
    b.insert(sample(100.0, 2.0));
    assert_eq!(b.stats().evicted, 1);
    assert_eq!(b.stats().resyncs, 1);
    assert_eq!(b.len(), 1);
    assert_eq!(solar(b.playback().0), 2.0);

    let mut b = JitterBuffer::new(BufferConfig { capacity: 3, ..cfg() });
    for i in 0..3 {
        b.insert(sample(10.0 + i as f64, i as f32));
    }
    b.insert(sample(100.0, 9.0));
    assert_eq!((b.stats().evicted, b.stats().resyncs, b.len()), (1, 1, 1));
}
