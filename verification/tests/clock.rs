//! Ticks, nanoseconds, instants and spans.

use kairos::duration::Duration;
use kairos::time::{system_theta_ns, HostTime, Timebase};

fn apple_silicon() -> Timebase {
    Timebase::new(125, 3)
}

fn intel() -> Timebase {
    Timebase::new(1, 1)
}

#[test]
fn ticks_to_nanos_rounds() {
    assert_eq!(apple_silicon().ticks_to_nanos(0), 0);
    assert_eq!(apple_silicon().ticks_to_nanos(3), 125);
    // One tick is 41.666… ns.
    assert_eq!(apple_silicon().ticks_to_nanos(1), 42);
    assert_eq!(intel().ticks_to_nanos(1_234_567), 1_234_567);
}

#[test]
fn nanos_to_ticks_rounds() {
    assert_eq!(apple_silicon().nanos_to_ticks(125), 3);
    assert_eq!(apple_silicon().nanos_to_ticks(42), 1);
    // 20 ns is 0.48 ticks, 21 ns is 0.504.
    assert_eq!(apple_silicon().nanos_to_ticks(20), 0);
    assert_eq!(apple_silicon().nanos_to_ticks(21), 1);
}

#[test]
fn ticks_roundtrip_is_exact_when_tick_is_coarser_than_nanos() {
    for ticks in [0u64, 1, 2, 3, 7, 1_000, 123_456_789, u64::MAX / 200] {
        let back = apple_silicon().nanos_to_ticks(apple_silicon().ticks_to_nanos(ticks));
        assert_eq!(back, ticks, "ticks={ticks}");
    }
}

#[test]
fn nanos_roundtrip_error_is_within_half_tick() {
    let half_tick_ns = (125.0 / 3.0 / 2.0f64).ceil() as i128;
    for nanos in [0u64, 1, 20, 21, 42, 999, 1_000_000_007, u64::MAX / 200] {
        let back = apple_silicon().ticks_to_nanos(apple_silicon().nanos_to_ticks(nanos));
        let err = (back as i128 - nanos as i128).abs();
        assert!(err <= half_tick_ns, "nanos={nanos} back={back} err={err}");
    }
}

#[test]
fn large_values_do_not_overflow() {
    let ns = apple_silicon().ticks_to_nanos(u64::MAX);
    assert!(ns > u64::MAX / 2);
    let _ = apple_silicon().nanos_to_ticks(u64::MAX);
}

#[test]
fn host_time_ordering_and_arithmetic() {
    let tb = apple_silicon();
    let a = HostTime::from_ticks(1_000);
    let b = HostTime::from_ticks(2_000);
    assert!(a < b);
    assert_eq!(
        b.checked_duration_since(a, tb),
        Some(tb.ticks_to_duration(1_000))
    );
    assert_eq!(a.checked_duration_since(b, tb), None);
    assert_eq!(a.saturating_duration_since(b, tb), Duration::zero());
    assert_eq!(b.elapsed(a, tb), Duration::zero());
    assert_eq!(b.signed_nanos_since(a, tb), -a.signed_nanos_since(b, tb));
}

#[test]
fn host_time_add_sub_duration_roundtrip() {
    let tb = apple_silicon();
    let t = HostTime::from_ticks(10_000_000);
    let d = Duration::from_millis(7);
    let later = t.plus(d, tb);
    assert!(later > t);
    let back = later.minus(d, tb);
    assert!(back.ticks().abs_diff(t.ticks()) <= 1);
}

#[test]
fn the_ends_of_host_time_hold() {
    let tb = intel();
    let last = HostTime::from_ticks(u64::MAX);
    assert_eq!(last.plus(Duration::from_secs(1), tb), last);
    let first = HostTime::from_ticks(0);
    assert_eq!(first.minus(Duration::from_secs(1), tb), first);
    assert_eq!(tb.duration_to_ticks(Duration::from_secs(u64::MAX)), u64::MAX);
}

#[test]
fn elapsed_counts_from_the_instant() {
    let tb = intel();
    let t = HostTime::from_nanos(5_000, tb);
    assert_eq!(t.elapsed(HostTime::from_nanos(7_500, tb), tb), Duration::from_nanos(2_500));
    assert_eq!(t.as_nanos(tb), 5_000);
    assert_eq!((tb.numer(), tb.denom()), (1, 1));
}

#[test]
fn the_system_clock_against_the_host_clock() {
    let tb = intel();
    let host = HostTime::from_nanos(1_000, tb);
    assert_eq!(system_theta_ns(host, Some(Duration::from_nanos(1_700)), tb), 700);
    // Before 1970 the clock reads as zero.
    assert_eq!(system_theta_ns(host, None, tb), -1_000);
}

#[test]
fn spans_add_up() {
    let d = Duration::from_millis(1_500);
    assert_eq!(d.as_nanos(), 1_500_000_000);
    assert_eq!(d.as_millis(), 1_500);
    assert_eq!(d.as_secs(), 1);
    assert_eq!(d.times(3), Duration::from_millis(4_500));
    assert_eq!(d.plus(Duration::from_micros(1)).as_nanos(), 1_500_001_000);
    assert_eq!(d.longest(Duration::from_secs(2)), Duration::from_secs(2));
    assert!(d.shorter_than(&Duration::from_secs(2)));
    assert!(!d.shorter_than(&d));
}
