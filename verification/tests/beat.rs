//! The beat table, its phases, and the ticks that sound in a buffer.

use kairos::beat::audio::{ticks_in_buffer, Audible, TickLengths};
use kairos::beat::{next_whole_second, BeatPlan, Phase, MAX_TICKS};
use kairos::duration::Duration;
use kairos::float::Float64;
use kairos::model::{ClockModel, DriftTerms, ModelStatus, SourceKind};
use kairos::time::{HostTime, Timebase};

fn tb() -> Timebase {
    Timebase::new(125, 3)
}

fn plan() -> BeatPlan {
    BeatPlan::new(
        HostTime::from_nanos(100 * 1_000_000_000, tb()),
        Duration::from_secs(1),
        4,
    )
}

fn ns(p: HostTime) -> i128 {
    p.as_nanos(tb()) as i128
}

fn phi(p: &Phase) -> f64 {
    (p.into.as_nanos() as f64 / p.period.as_nanos() as f64).clamp(0.0, 1.0)
}

#[test]
fn ticks_are_spaced_one_period_back_from_zero() {
    let p = plan();
    let times: Vec<i128> = p.tick_times(tb()).iter().map(|(_, t)| ns(*t)).collect();
    let z = ns(p.zero);
    for (k, t) in times.iter().enumerate() {
        let expect = z - (3 - k as i128) * 1_000_000_000;
        assert!((t - expect).abs() <= 50, "tick {k}: {t} and {expect}");
    }
    assert!((ns(p.visual_start(tb())) - (z - 4_000_000_000)).abs() <= 50);
    assert!((ns(p.end(tb())) - (z + 1_500_000_000)).abs() <= 50);
    assert_eq!(p.first_tick(tb()), p.tick_at(0, tb()));
    assert_eq!(p.tick_at(99, tb()), p.zero);
    assert_eq!(p.visual_lead(), Duration::from_secs(4));
}

#[test]
fn phase_walks_through_the_plan() {
    let p = plan();
    let start = p.visual_start(tb());
    assert_eq!(p.phase_at(start.minus(Duration::from_millis(1), tb()), tb()), None);

    let at_start = p.phase_at(start, tb()).unwrap();
    assert_eq!(at_start.beat, 0);
    assert_eq!(phi(&at_start), 0.0);
    assert_eq!(at_start.since_landing, None);
    assert!(!at_start.is_final && !at_start.done);

    let mid = p.phase_at(start.plus(Duration::from_millis(1_250), tb()), tb()).unwrap();
    assert_eq!(mid.beat, 1);
    assert!((phi(&mid) - 0.25).abs() < 1e-6, "{}", phi(&mid));
    let since = mid.since_landing.unwrap().as_millis();
    assert!((249..=251).contains(&since), "{since}");
    assert!(!mid.is_final);

    let near = p.phase_at(p.zero.minus(Duration::from_millis(10), tb()), tb()).unwrap();
    assert_eq!(near.beat, 3);
    assert!(near.is_final && !near.done);
    assert!((phi(&near) - 0.99).abs() < 1e-6, "{}", phi(&near));

    let done = p.phase_at(p.zero, tb()).unwrap();
    assert!(done.done && done.is_final && phi(&done) == 1.0);
    assert_eq!(done.since_landing, Some(Duration::zero()));

    let tail = p.phase_at(p.zero.plus(Duration::from_millis(1_499), tb()), tb()).unwrap();
    assert!(tail.done);
    assert_eq!(p.phase_at(p.end(tb()), tb()), None);
}

#[test]
fn new_clamps_period_and_ticks() {
    let p = BeatPlan::new(HostTime::from_ticks(0), Duration::zero(), 0);
    assert_eq!(p.ticks, 1);
    assert_eq!(p.period, Duration::from_millis(1));
    let p = BeatPlan::new(HostTime::from_ticks(0), Duration::from_secs(1), 99);
    assert_eq!(p.ticks, MAX_TICKS);
    assert!(
        Phase::idle(&BeatPlan::new(
            HostTime::from_ticks(0),
            Duration::from_secs(1),
            1
        ))
        .is_final
    );
}

fn terms(m: &ClockModel, at: HostTime) -> DriftTerms {
    DriftTerms {
        drift_ns: (f64::from_bits(m.drift.bits) * m.elapsed_ns(at, tb()) as f64) as i128,
        growth_ns: 0,
    }
}

#[test]
fn next_whole_second_rounds_up_and_from_target_inverts() {
    let m0 = HostTime::from_nanos(50 * 1_000_000_000, tb());
    let model = ClockModel {
        source: SourceKind::Standard,
        status: ModelStatus::Tracking,
        reference: m0,
        offset_ns: 1_700_000_000_000_000_000 + 250_000_000,
        drift: Float64 { bits: 30e-6f64.to_bits() },
        half_width_ns: 5_000_000,
        half_width_growth_ns_per_s: Float64::zero(),
    };
    let target = next_whole_second(&model, m0, terms(&model, m0), tb());
    assert_eq!(target % 1_000_000_000, 0);
    let now_remote = model.estimate_at(m0, terms(&model, m0), tb()).remote_unix_ns;
    assert!(target > now_remote && target - now_remote <= 1_000_000_000);

    let distance = model.remote_distance_ns(target, tb());
    let elapsed = (distance as f64 / (1.0 + 30e-6)).round() as i128;
    let plan = BeatPlan::from_target(&model, elapsed, Duration::from_secs(1), 4, tb());
    let back = model.estimate_at(plan.zero, terms(&model, plan.zero), tb()).remote_unix_ns;
    assert!((back - target).abs() <= 100, "{}", back - target);
}

#[test]
fn a_whole_second_is_its_own_next() {
    let unit = Timebase::new(1, 1);
    let mut m = ClockModel::uncalibrated(SourceKind::Standard, HostTime::from_ticks(0));
    m.offset_ns = 0;
    let at = |ns: u64| next_whole_second(&m, HostTime::from_ticks(ns), DriftTerms::none(), unit);
    assert_eq!(at(2_000_000_000), 2_000_000_000);
    assert_eq!(at(2_000_000_001), 3_000_000_000);
    let mut early = m;
    early.offset_ns = -1_500_000_000;
    assert_eq!(
        next_whole_second(&early, HostTime::from_ticks(0), DriftTerms::none(), unit),
        -1_000_000_000
    );
}

#[test]
fn phases_are_well_formed_between_start_and_zero() {
    for ticks in 1u32..8 {
        for period_ms in [100u64, 333, 1_999] {
            let zero = HostTime::from_nanos(100 * 1_000_000_000, tb());
            let plan = BeatPlan::new(zero, Duration::from_millis(period_ms), ticks);
            let start = plan.visual_start(tb());
            let span = plan.zero.ticks() - start.ticks();
            for part in 0..97 {
                let at = HostTime::from_ticks(start.ticks() + span / 97 * part);
                let p = plan.phase_at(at, tb()).expect("a phase");
                assert!(p.beat < ticks);
                assert!(p.into <= p.period);
                assert!(!p.done);
                assert_eq!(p.is_final, p.beat == ticks - 1);
                assert_eq!(p.since_landing.is_none(), p.beat == 0);
                if let Some(since) = p.since_landing {
                    assert!(since <= plan.period);
                }
            }
        }
    }
}

#[test]
fn a_tick_sounds_in_the_buffers_it_overlaps() {
    let unit = Timebase::new(1, 1);
    let ms = 1_000_000i128;
    let start = HostTime::from_ticks(10_000_000_000);
    let plan = BeatPlan::new(
        start.plus(Duration::from_millis(1_010), unit),
        Duration::from_secs(1),
        2,
    );
    let lengths = TickLengths::default();
    // The first tick lands 10 ms in and lasts 30 ms.
    let b = ticks_in_buffer(&plan, &lengths, start, 11 * ms, unit);
    assert_eq!(b.onsets, 0b01);
    assert_eq!(
        b.audible,
        vec![Audible { k: 0, rel_ns: 10 * ms, length: Duration::from_millis(30) }]
    );
    // In the next buffer it still sounds, but does not begin.
    let next = start.plus(Duration::from_millis(11), unit);
    let b = ticks_in_buffer(&plan, &lengths, next, 11 * ms, unit);
    assert_eq!(b.onsets, 0);
    assert_eq!(
        b.audible,
        vec![Audible { k: 0, rel_ns: -ms, length: Duration::from_millis(30) }]
    );
    // 40 ms in it is over.
    let later = start.plus(Duration::from_millis(40), unit);
    assert!(ticks_in_buffer(&plan, &lengths, later, 11 * ms, unit).audible.is_empty());
    // The last tick is longer.
    let last = start.plus(Duration::from_millis(1_200), unit);
    let b = ticks_in_buffer(&plan, &lengths, last, ms, unit);
    assert_eq!(
        b.audible,
        vec![Audible { k: 1, rel_ns: -190 * ms, length: Duration::from_millis(200) }]
    );
}
