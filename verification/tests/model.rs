//! The clock model and what it gives for an instant.

use kairos::duration::Duration;
use kairos::float::Float64;
use kairos::model::{ClockModel, DriftTerms, Estimate, ModelStatus, SourceKind};
use kairos::time::{HostTime, Timebase};

fn tb() -> Timebase {
    Timebase::new(125, 3)
}

fn float(x: f64) -> Float64 {
    Float64 { bits: x.to_bits() }
}

/// What the two rates come to, as the program works it out.
fn terms(m: &ClockModel, at: HostTime) -> DriftTerms {
    let dt_ns = m.elapsed_ns(at, tb());
    let dt_s = dt_ns as f64 / 1e9;
    DriftTerms {
        drift_ns: (f64::from_bits(m.drift.bits) * dt_ns as f64) as i128,
        growth_ns: (f64::from_bits(m.half_width_growth_ns_per_s.bits) * dt_s.abs()) as u64,
    }
}

fn estimate(m: &ClockModel, at: HostTime) -> Estimate {
    m.estimate_at(at, terms(m, at), tb())
}

fn tracking(reference: HostTime) -> ClockModel {
    ClockModel {
        source: SourceKind::Standard,
        status: ModelStatus::Tracking,
        reference,
        offset_ns: 1_700_000_000_000_000_000,
        drift: float(20e-6),
        half_width_ns: 5_000_000,
        half_width_growth_ns_per_s: float(50_000.0),
    }
}

#[test]
fn uncalibrated_is_not_usable() {
    let m = ClockModel::uncalibrated(SourceKind::Standard, HostTime::from_ticks(0));
    assert!(!m.is_usable());
    assert_eq!(estimate(&m, HostTime::from_ticks(123)).half_width_ns, u64::MAX);
}

#[test]
fn estimate_at_reference_is_offset_plus_host() {
    let m0 = HostTime::from_ticks(1_000_000);
    let m = tracking(m0);
    let e = estimate(&m, m0);
    assert_eq!(e.remote_unix_ns, m0.as_nanos(tb()) as i128 + m.offset_ns);
    assert_eq!(e.half_width_ns, m.half_width_ns);
    assert_eq!(e, m.estimate_at(m0, DriftTerms::none(), tb()));
}

#[test]
fn drift_and_growth_apply_with_elapsed_time() {
    let m0 = HostTime::from_ticks(1_000_000);
    let m = tracking(m0);
    let later = m0.plus(Duration::from_secs(10), tb());
    let e = estimate(&m, later);

    let dt_ns = later.signed_nanos_since(m0, tb());
    let expected_theta = m.offset_ns + (20e-6 * dt_ns as f64) as i128;
    assert_eq!(e.remote_unix_ns, later.as_nanos(tb()) as i128 + expected_theta);
    // 5 ms and ten seconds of 50 µs.
    assert!((e.half_width_ns as i128 - 5_500_000).abs() < 1_000);
}

#[test]
fn growth_is_symmetric_in_time() {
    let m0 = HostTime::from_ticks(10_000_000_000);
    let m = tracking(m0);
    let before = estimate(&m, m0.minus(Duration::from_secs(3), tb()));
    let after = estimate(&m, m0.plus(Duration::from_secs(3), tb()));
    assert!((before.half_width_ns as i128 - after.half_width_ns as i128).abs() < 1_000);
}

#[test]
fn going_to_host_time_and_back_finds_the_moment() {
    let m = tracking(HostTime::from_nanos(7_200_000_000_000, tb()));
    let start = estimate(&m, m.reference).remote_unix_ns;
    for ahead_ns in [-3_600_000_000_000i128, -1, 0, 1, 999_999_999, 3_600_000_000_000] {
        let target = start + ahead_ns;
        let distance = m.remote_distance_ns(target, tb());
        assert_eq!(distance, ahead_ns);
        let elapsed = (distance as f64 / (1.0 + f64::from_bits(m.drift.bits))).round() as i128;
        let back = estimate(&m, m.host_at(elapsed, tb())).remote_unix_ns;
        assert!((back - target).abs() <= 100, "{}", back - target);
    }
}

#[test]
fn host_time_ends_where_the_clock_does() {
    let m = tracking(HostTime::from_nanos(1_000, Timebase::new(1, 1)));
    assert_eq!(m.host_at(-2_000, Timebase::new(1, 1)), HostTime::from_ticks(0));
    assert_eq!(
        m.host_at(u64::MAX as i128, Timebase::new(1, 1)),
        HostTime::from_ticks(u64::MAX)
    );
}

#[test]
fn a_model_without_bound_is_not_usable() {
    let mut m = tracking(HostTime::from_ticks(0));
    assert!(m.is_usable());
    m.half_width_ns = u64::MAX;
    assert!(!m.is_usable());
}
