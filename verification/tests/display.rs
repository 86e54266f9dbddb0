//! What the panel shows: the smoothed time, and the local time of day.

use kairos::display::{
    dashes, split_local, DigitCells, DisplaySmoother, LocalTime, Shown, SmootherConfig, WallClock,
};
use kairos::duration::Duration;
use kairos::float::Float64;
use kairos::model::{ClockModel, DriftTerms, ModelStatus, SourceKind};
use kairos::time::{HostTime, Timebase};

const MS: i128 = 1_000_000;

fn tb() -> Timebase {
    Timebase::new(125, 3)
}

fn model(reference: HostTime, theta_ns: i128, half_ms: u64) -> ClockModel {
    ClockModel {
        source: SourceKind::Standard,
        status: ModelStatus::Tracking,
        reference,
        offset_ns: theta_ns,
        drift: Float64::zero(),
        half_width_ns: half_ms * 1_000_000,
        half_width_growth_ns_per_s: Float64::zero(),
    }
}

/// A frame, with the largest step as the program works it out.
fn tick(s: &mut DisplaySmoother, m: &ClockModel, at: HostTime) -> Option<Shown> {
    let dt = s.since_last(at, tb()).as_nanos() as f64 / 1e9;
    let max_step = (f64::from_bits(s.config.max_slew_ns_per_s.bits) * dt) as i128;
    s.tick(m, at, DriftTerms::none(), max_step, tb())
}

fn contains(shown: &Shown, model: &ClockModel, at: HostTime) -> bool {
    let e = model.estimate_at(at, DriftTerms::none(), tb());
    let lo = shown.remote_unix_ns - shown.half_width_ns as i128;
    let hi = shown.remote_unix_ns + shown.half_width_ns as i128;
    lo <= e.remote_unix_ns - e.half_width_ns as i128
        && e.remote_unix_ns + e.half_width_ns as i128 <= hi
}

#[test]
fn first_tick_shows_the_model_midpoint() {
    let t0 = HostTime::from_nanos(1_000_000_000_000, tb());
    let m = model(t0, 1_700_000_000 * 1_000 * MS, 8);
    let mut s = DisplaySmoother::new(SmootherConfig::default());
    let shown = tick(&mut s, &m, t0).unwrap();
    assert_eq!(
        shown.remote_unix_ns,
        m.estimate_at(t0, DriftTerms::none(), tb()).remote_unix_ns
    );
    assert_eq!(shown.half_width_ns, m.half_width_ns);
    assert!(!shown.slewing);
}

#[test]
fn small_change_is_slewed_at_bounded_rate_and_stays_honest() {
    let t0 = HostTime::from_nanos(1_000_000_000_000, tb());
    let theta = 1_700_000_000 * 1_000 * MS;
    let a = model(t0, theta, 10);
    let b = model(t0, theta + 5 * MS, 10);
    let mut s = DisplaySmoother::new(SmootherConfig::default());
    tick(&mut s, &a, t0).unwrap();

    let frame = Duration::from_micros(16_667);
    let mut at = t0;
    let mut prev = theta;
    let mut converged_at = None;
    for i in 1..=120 {
        at = at.plus(frame, tb());
        let shown = tick(&mut s, &b, at).unwrap();
        let now_theta = shown.remote_unix_ns - at.as_nanos(tb()) as i128;
        let step = (now_theta - prev).abs();
        assert!(step <= 167_000, "frame {i} moved by {step} ns");
        assert!(contains(&shown, &b, at), "frame {i}");
        prev = now_theta;
        if !shown.slewing && converged_at.is_none() {
            converged_at = Some(i);
        }
    }
    let n = converged_at.expect("not there after two seconds");
    assert!((28..=34).contains(&n), "{n}");
}

#[test]
fn large_change_jumps_immediately() {
    let t0 = HostTime::from_nanos(1_000_000_000_000, tb());
    let theta = 1_700_000_000 * 1_000 * MS;
    let a = model(t0, theta, 8);
    let b = model(t0, theta + 50 * MS, 8);
    let mut s = DisplaySmoother::new(SmootherConfig::default());
    tick(&mut s, &a, t0).unwrap();
    let shown = tick(&mut s, &b, t0.plus(Duration::from_millis(16), tb())).unwrap();
    assert!(!shown.slewing);
    assert_eq!(shown.half_width_ns, b.half_width_ns);
}

#[test]
fn unusable_model_resets_and_next_usable_jumps() {
    let t0 = HostTime::from_nanos(1_000_000_000_000, tb());
    let theta = 1_700_000_000 * 1_000 * MS;
    let mut s = DisplaySmoother::new(SmootherConfig::default());
    tick(&mut s, &model(t0, theta, 8), t0).unwrap();
    assert!(tick(&mut s, &ClockModel::uncalibrated(SourceKind::Standard, t0), t0).is_none());
    let shown = tick(
        &mut s,
        &model(t0, theta + 3 * MS, 8),
        t0.plus(Duration::from_millis(16), tb()),
    )
    .unwrap();
    assert!(!shown.slewing);
}

#[test]
fn the_residual_widens_the_shown_interval() {
    let unit = Timebase::new(1, 1);
    let t0 = HostTime::from_ticks(1_000);
    let mut s = DisplaySmoother::new(SmootherConfig::default());
    s.tick(&model(t0, 0, 10), t0, DriftTerms::none(), 0, unit).unwrap();
    let at = HostTime::from_ticks(2_000);
    let shown = s.tick(&model(t0, 5 * MS, 10), at, DriftTerms::none(), 2 * MS, unit).unwrap();
    assert_eq!(shown.remote_unix_ns, 2_000 + 2 * MS);
    assert_eq!(shown.half_width_ns, 13_000_000);
    assert!(shown.slewing);
    s.reset();
    assert_eq!(s.since_last(at, unit), Duration::zero());
}

#[test]
fn split_local_handles_offsets_and_rounding() {
    assert_eq!(
        split_local(0, 8 * 3_600),
        WallClock { hour: 8, minute: 0, second: 0, millis: 0 }
    );
    let w = split_local(1_700_000_000 * 1_000_000_000 + 123_456_789, 0);
    assert_eq!(w, WallClock { hour: 22, minute: 13, second: 20, millis: 123 });
    assert_eq!(&w.digits(), b"22:13:20.123");
    assert_eq!(split_local(1_700_000_000 * 1_000_000_000, -23 * 3_600).hour, 23);
    assert_eq!(std::str::from_utf8(&dashes()).unwrap(), "--:--:--.---");
}

#[test]
fn the_offset_is_looked_up_once_a_minute() {
    let mut lt = LocalTime::new();
    let minute: i128 = 1_699_999_980 * 1_000_000_000;
    assert_eq!(lt.lookup_second(minute), Some(1_699_999_980));
    lt.wall(minute, 3_600);
    assert_eq!(lt.gmtoff_secs(), 3_600);
    assert_eq!(lt.lookup_second(minute + 59_999_999_999), None);
    // What is given in between is not taken.
    assert_eq!(lt.wall(minute + 1, 7_200).hour, split_local(minute + 1, 3_600).hour);
    assert_eq!(lt.lookup_second(minute + 60_000_000_000), Some(1_700_000_040));
    // Before 1970 minutes count down.
    assert_eq!(LocalTime::default().lookup_second(-1), Some(-1));
}

#[test]
fn only_cells_that_change_are_drawn() {
    let mut cells = DigitCells { shown: dashes() };
    assert_eq!(cells.set(b"22:13:20.123"), vec![0, 1, 3, 4, 6, 7, 9, 10, 11]);
    assert_eq!(cells.set(b"22:13:21.123"), vec![7]);
    assert_eq!(cells.set(b"22:13:21.123"), Vec::<usize>::new());
    assert_eq!(&cells.shown, b"22:13:21.123");
}
