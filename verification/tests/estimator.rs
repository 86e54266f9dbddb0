//! The interval estimator, with the solver of the program beside it.

use kairos::duration::Duration;
use kairos::estimate::interval::{
    worst_fit, Band, Consensus, EstimatorConfig, IntervalEstimator, SolvedBounds, Verdict,
};
use kairos::float::Float64;
use kairos::model::{ClockModel, DriftTerms, Estimate, ModelStatus, SourceKind};
use kairos::source::Sample;
use kairos::time::{HostTime, Timebase};

const NS: i128 = 1_000_000_000;
const MS: i128 = 1_000_000;
/// A million seconds after the start.
const T0_NS: u64 = 1_000_000 * 1_000_000_000;

fn tb() -> Timebase {
    Timebase::new(125, 3)
}

fn at(secs_after_t0: f64) -> HostTime {
    HostTime::from_nanos(T0_NS + (secs_after_t0 * 1e9) as u64, tb())
}

fn truth(theta0_ns: i128, rho_ns_per_s: f64, host: HostTime) -> i128 {
    let t = (host.as_nanos(tb()) as i128 - T0_NS as i128) as f64 / 1e9;
    theta0_ns + (rho_ns_per_s * t).round() as i128
}

fn sample_around(theta: i128, host: HostTime, below: i128, above: i128) -> Sample {
    Sample::new(SourceKind::Standard, host, theta - below, theta + above).unwrap()
}

fn new_estimator() -> IntervalEstimator {
    IntervalEstimator::new(SourceKind::Standard, EstimatorConfig::default())
}

fn float(x: f64) -> Float64 {
    Float64 { bits: x.to_bits() }
}

fn number(x: Float64) -> f64 {
    f64::from_bits(x.bits)
}

/// The corners of the region that the bands and the drift's bound leave.
fn corners(bands: &[Band], rho_max: f64) -> Vec<(f64, f64)> {
    let mut planes = Vec::new();
    for b in bands {
        let t = b.dt_ns as f64 / 1e9;
        planes.push((1.0, t, b.hi as f64));
        planes.push((-1.0, -t, -(b.lo as f64)));
    }
    planes.push((0.0, 1.0, rho_max));
    planes.push((0.0, -1.0, rho_max));
    let holds = |x: f64, y: f64| {
        planes.iter().all(|&(a, b, c): &(f64, f64, f64)| {
            let lhs = a * x + b * y;
            lhs <= c + lhs.abs().max(c.abs()).max(1.0) * 1e-9
        })
    };
    let mut found = Vec::new();
    for (i, &(a1, b1, c1)) in planes.iter().enumerate() {
        for &(a2, b2, c2) in &planes[i + 1..] {
            let det: f64 = a1 * b2 - b1 * a2;
            let scale = (a1.abs() + b1.abs()) * (a2.abs() + b2.abs());
            if det.abs() <= scale * 1e-12 {
                continue;
            }
            let x = (c1 * b2 - b1 * c2) / det;
            let y = (a1 * c2 - c1 * a2) / det;
            if x.is_finite() && y.is_finite() && holds(x, y) {
                found.push((x, y));
            }
        }
    }
    found
}

fn range(v: &[f64]) -> (f64, f64) {
    v.iter().fold((v[0], v[0]), |(lo, hi), &x| (lo.min(x), hi.max(x)))
}

fn residuals(bands: &[Band], rho_max: f64) -> Vec<Float64> {
    let n = bands.len() as f64;
    let pts: Vec<(f64, f64)> =
        bands.iter().map(|b| (b.dt_ns as f64 / 1e9, b.mid as f64)).collect();
    let st: f64 = pts.iter().map(|p| p.0).sum();
    let sm: f64 = pts.iter().map(|p| p.1).sum();
    let stt: f64 = pts.iter().map(|p| p.0 * p.0).sum();
    let stm: f64 = pts.iter().map(|p| p.0 * p.1).sum();
    let det = n * stt - st * st;
    let slope = if det.abs() > 1e-12 * n * stt.max(1.0) {
        ((n * stm - st * sm) / det).clamp(-rho_max, rho_max)
    } else {
        0.0
    };
    let level = (sm - slope * st) / n;
    pts.iter().map(|&(t, mid)| float((mid - (level + slope * t)).abs())).collect()
}

fn model(est: &mut IntervalEstimator, config: &EstimatorConfig, now: HostTime) -> ClockModel {
    let rho_max = number(config.max_drift_ppm) * 1_000.0;
    let mut c: Consensus = est.begin();
    while !c.working.is_empty() {
        let bands = c.bands(c.reference(), tb());
        let verdict = if corners(&bands, rho_max).is_empty() {
            Verdict::Infeasible { residuals: residuals(&bands, rho_max) }
        } else {
            Verdict::Feasible
        };
        if c.settle(verdict) {
            break;
        }
    }
    let found = corners(&c.bands(now, tb()), rho_max);
    let bounds = if c.working.is_empty() || found.is_empty() {
        None
    } else {
        let (theta_lo, theta_hi) = range(&found.iter().map(|v| v.0).collect::<Vec<f64>>());
        let (rho_lo, rho_hi) = range(&found.iter().map(|v| v.1).collect::<Vec<f64>>());
        Some(SolvedBounds {
            mid_ns: ((theta_lo + theta_hi) / 2.0).round() as i128,
            half_ns: ((theta_hi - theta_lo) / 2.0).ceil() as u64,
            drift: float((rho_lo + rho_hi) / 2.0 / 1e9),
            growth: float((rho_hi - rho_lo) / 2.0),
        })
    };
    est.model(&c, now, bounds, tb())
}

fn estimate(m: &ClockModel, host: HostTime) -> Estimate {
    let dt_ns = m.elapsed_ns(host, tb());
    let terms = DriftTerms {
        drift_ns: (number(m.drift) * dt_ns as f64) as i128,
        growth_ns: (number(m.half_width_growth_ns_per_s) * (dt_ns as f64 / 1e9).abs()) as u64,
    };
    m.estimate_at(host, terms, tb())
}

fn assert_contains(model: &ClockModel, host: HostTime, true_theta: i128) {
    let e = estimate(model, host);
    let true_remote = host.as_nanos(tb()) as i128 + true_theta;
    let lo = e.remote_unix_ns - e.half_width_ns as i128;
    let hi = e.remote_unix_ns + e.half_width_ns as i128;
    assert!(lo <= true_remote && true_remote <= hi, "{true_remote} not in [{lo}, {hi}]");
}

#[test]
fn empty_is_uncalibrated() {
    let mut est = new_estimator();
    let m = model(&mut est, &EstimatorConfig::default(), at(0.0));
    assert_eq!(m.status, ModelStatus::Uncalibrated);
    assert!(!m.is_usable());
}

#[test]
fn single_sample_bounds_theta_and_drift_is_prior() {
    let mut est = new_estimator();
    let theta0 = 1_700_000_000 * NS + 12 * MS;
    let h = at(0.0);
    est.push(sample_around(theta0, h, 3 * MS, 5 * MS), tb());

    let m = model(&mut est, &EstimatorConfig::default(), h);
    assert_eq!(m.status, ModelStatus::Converging);
    assert_contains(&m, h, theta0);
    assert!((m.half_width_ns as i128 - 4 * MS).abs() < 10_000);
    assert!((number(m.half_width_growth_ns_per_s) - 500_000.0).abs() < 1.0);
    assert!(number(m.drift).abs() < 1e-12);
}

#[test]
fn many_samples_tighten_and_recover_drift() {
    let mut est = new_estimator();
    let theta0 = 1_700_000_000 * NS;
    let rho = 30_000.0;
    for i in 0..40 {
        let h = at(i as f64 * 45.0);
        let theta = truth(theta0, rho, h);
        let below = (2 + (i * 7) % 19) as i128 * MS;
        let above = (1 + (i * 11) % 15) as i128 * MS;
        est.push(sample_around(theta, h, below, above), tb());
    }
    let now = at(40.0 * 45.0);
    let m = model(&mut est, &EstimatorConfig::default(), now);
    assert_eq!(m.status, ModelStatus::Tracking);
    assert_contains(&m, now, truth(theta0, rho, now));
    let growth = number(m.half_width_growth_ns_per_s);
    assert!(growth < 100_000.0, "growth={growth}");
    let drift_ppm = number(m.drift) * 1e6;
    assert!((drift_ppm - 30.0).abs() < growth / 1_000.0 + 0.1);
    let ahead = now.plus(Duration::from_secs(60), tb());
    assert_contains(&m, ahead, truth(theta0, rho, ahead));
}

#[test]
fn outliers_are_rejected() {
    let mut est = new_estimator();
    let theta0 = 1_700_000_000 * NS;
    for i in 0..20 {
        let h = at(i as f64 * 30.0);
        let theta = truth(theta0, 0.0, h);
        est.push(sample_around(theta, h, 5 * MS, 5 * MS), tb());
        if i % 7 == 3 {
            let late = h.plus(Duration::from_millis(500), tb());
            est.push(sample_around(theta + 5 * NS, late, 5 * MS, 5 * MS), tb());
        }
    }
    let now = at(20.0 * 30.0);
    let m = model(&mut est, &EstimatorConfig::default(), now);
    assert_eq!(est.rejected(), 3);
    assert_contains(&m, now, theta0);
    assert!(m.half_width_ns < 10 * MS as u64);
}

#[test]
fn persistent_bad_server_is_rejected() {
    let mut est = new_estimator();
    let theta0 = 1_700_000_000 * NS;
    for i in 0..30 {
        let h = at(i as f64 * 20.0);
        let theta = truth(theta0, 10_000.0, h);
        match i % 3 {
            0 | 1 => est.push(sample_around(theta, h, 2 * MS, 2 * MS), tb()),
            _ => est.push(sample_around(theta + 30 * MS, h, 2 * MS, 2 * MS), tb()),
        }
    }
    let now = at(30.0 * 20.0);
    let m = model(&mut est, &EstimatorConfig::default(), now);
    assert_contains(&m, now, truth(theta0, 10_000.0, now));
    let e = estimate(&m, now);
    let bad = now.as_nanos(tb()) as i128 + truth(theta0, 10_000.0, now) + 30 * MS;
    assert!(bad > e.remote_unix_ns + e.half_width_ns as i128);
    assert!(est.rejected() >= 8, "rejected={}", est.rejected());
}

#[test]
fn window_evicts_old_samples() {
    let mut est = IntervalEstimator::new(
        SourceKind::Standard,
        EstimatorConfig { window: Duration::from_secs(100), ..EstimatorConfig::default() },
    );
    let theta0 = 1_700_000_000 * NS;
    for i in 0..10 {
        est.push(sample_around(theta0, at(i as f64 * 30.0), MS, MS), tb());
    }
    // The newest is at 270 s: 180, 210, 240 and 270 stay.
    assert_eq!(est.len(), 4);
    assert_eq!(est.span(tb()), Duration::from_secs(90));
}

#[test]
fn invalidate_clears() {
    let mut est = new_estimator();
    est.push(sample_around(1_700_000_000 * NS, at(0.0), MS, MS), tb());
    est.invalidate();
    assert!(est.is_empty());
    let m = model(&mut est, &EstimatorConfig::default(), at(1.0));
    assert_eq!(m.status, ModelStatus::Uncalibrated);
}

#[test]
fn the_window_keeps_the_newest_when_full() {
    let mut est = IntervalEstimator::new(
        SourceKind::Standard,
        EstimatorConfig { max_samples: 3, ..EstimatorConfig::default() },
    );
    for i in 0..5 {
        est.push(sample_around(1_700_000_000 * NS, at(i as f64), MS, MS), tb());
    }
    assert_eq!(est.len(), 3);
    assert_eq!(est.span(tb()), Duration::from_secs(2));
    assert_eq!(est.source(), SourceKind::Standard);
}

#[test]
fn late_samples_are_put_in_their_place() {
    let mut est = new_estimator();
    for t in [5.0, 1.0, 3.0] {
        est.push(sample_around(1_700_000_000 * NS, at(t), MS, MS), tb());
    }
    let times: Vec<HostTime> = est.begin().working.iter().map(|s| s.at).collect();
    assert_eq!(times, vec![at(1.0), at(3.0), at(5.0)]);
}

#[test]
fn bands_are_counted_from_the_newest_midpoint() {
    let mut est = new_estimator();
    est.push(sample_around(1_000 * MS, at(0.0), 2 * MS, 4 * MS), tb());
    est.push(sample_around(1_010 * MS, at(2.0), MS, MS), tb());
    let c = est.begin();
    assert_eq!(c.origin(), 1_010 * MS);
    let bands = c.bands(at(2.0), tb());
    assert_eq!(
        bands[0],
        Band { dt_ns: -2 * NS, lo: -12 * MS, hi: -6 * MS, mid: -9 * MS }
    );
    assert_eq!(bands[1], Band { dt_ns: 0, lo: -MS, hi: MS, mid: 0 });
}

#[test]
fn the_worst_fit_is_the_last_of_the_largest() {
    assert_eq!(worst_fit(&vec![float(1.0), float(3.0), float(3.0), float(2.0)]), 2);
    assert_eq!(worst_fit(&vec![float(0.0)]), 0);
}

#[test]
fn asking_for_a_model_twice_gives_the_same() {
    let config = EstimatorConfig::default();
    let mut est = new_estimator();
    for i in 0..12 {
        let host = at(f64::from(i) * 30.0);
        let wrong = if i == 7 { 80 * MS } else { 0 };
        est.push(sample_around(NS + wrong, host, 5 * MS, 5 * MS), tb());
    }
    let now = at(400.0);
    let first = model(&mut est, &config, now);
    let set_aside = est.rejected();
    assert_eq!(set_aside, 1);
    assert_eq!(model(&mut est, &config, now), first);
    assert_eq!(est.rejected(), set_aside);
    assert_eq!(est.len(), 12);
    assert_eq!(first.reference, now);
}

#[test]
fn nothing_solved_counts_without_samples() {
    let mut est = new_estimator();
    let c = est.begin();
    let bounds =
        SolvedBounds { mid_ns: 5, half_ns: 1, drift: Float64::zero(), growth: Float64::zero() };
    let m = est.model(&c, at(1.0), Some(bounds), tb());
    assert_eq!(m.status, ModelStatus::Uncalibrated);
    assert!(!m.is_usable());
}

#[test]
fn an_only_sample_can_be_set_aside() {
    let mut est = new_estimator();
    est.push(sample_around(NS, at(0.0), MS, MS), tb());
    let mut c = est.begin();
    assert!(c.settle(Verdict::Infeasible { residuals: vec![float(1.0)] }));
    assert!(c.working.is_empty());
    assert_eq!(c.rejected, 1);
}

/// Truth stays inside, whatever the drift, the widths and a quarter of outliers: a spread of
/// cases from a small generator.
#[test]
fn truth_stays_inside_the_interval() {
    let mut seed = 12345u64;
    let mut next = |n: u64| {
        seed = seed.wrapping_mul(6364136223846793005).wrapping_add(1442695040888963407);
        (seed >> 33) % n
    };
    for _ in 0..12 {
        let theta0 = 1_700_000_000 * NS + (next(4_000) as i128 - 2_000) * MS;
        let rho = next(800_000) as f64 - 400_000.0;
        let count = 4 + next(9);
        let mut est = new_estimator();
        let mut hosts = Vec::new();
        for i in 0..count {
            let h = at(i as f64 * 60.0 + next(50) as f64);
            let shift = if i % 5 == 4 { 3 * NS } else { 0 };
            let theta = truth(theta0, rho, h) + shift;
            est.push(
                sample_around(theta, h, next(100) as i128 * MS, next(100) as i128 * MS),
                tb(),
            );
            hosts.push(h);
        }
        let now = *hosts.last().unwrap();
        let m = model(&mut est, &EstimatorConfig::default(), now);
        assert!(m.is_usable());
        for h in &hosts {
            assert_contains(&m, *h, truth(theta0, rho, *h));
        }
        let ahead = now.plus(Duration::from_secs(600), tb());
        assert_contains(&m, ahead, truth(theta0, rho, ahead));
    }
}

#[test]
fn honest_samples_cost_nothing() {
    let mut est = new_estimator();
    let theta0 = 1_700_000_000 * NS;
    for i in 0..20 {
        let h = at(i as f64 * 80.0);
        let theta = truth(theta0, -250_000.0, h);
        est.push(sample_around(theta, h, (i % 7) as i128 * MS, (i % 5) as i128 * MS), tb());
    }
    let now = at(20.0 * 80.0);
    model(&mut est, &EstimatorConfig::default(), now);
    assert_eq!(est.rejected(), 0);
}
