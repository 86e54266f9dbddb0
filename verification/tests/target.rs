//! The countdown to a target, and picking a reaction.

use kairos::duration::Duration;
use kairos::float::Float64;
use kairos::target::{
    median, pick_reaction, AbortReason, Action, LeadParams, Middle, Stage, TargetConfig,
    TargetFile, TargetMachine, CALIBRATION_AFTER_MS, CALIBRATION_BEFORE_MS,
    DEFAULT_LOCK_BEFORE_S, DEFAULT_MEASURE_BEFORE_S,
};

const S: i128 = 1_000_000_000;
const TARGET: i128 = 1_800_000_000 * S;

fn float(x: f64) -> Float64 {
    Float64 { bits: x.to_bits() }
}

fn number(x: Float64) -> f64 {
    f64::from_bits(x.bits)
}

fn total_ms(lead: &LeadParams) -> f64 {
    number(lead.reaction_ms) + number(lead.browser_ms) + number(lead.one_way_ms)
        - number(lead.safety_ms)
}

fn lead_ns(lead: &LeadParams) -> i128 {
    (total_ms(lead) * 1e6).round() as i128
}

fn config() -> TargetConfig {
    TargetConfig {
        target_unix_ns: TARGET,
        lead_ns: lead_ns(&LeadParams::default()),
        measure_before: Duration::from_secs(DEFAULT_MEASURE_BEFORE_S),
        lock_before: Duration::from_secs(DEFAULT_LOCK_BEFORE_S),
    }
}

fn machine() -> TargetMachine {
    TargetMachine::new(config(), Duration::from_millis(4_500))
}

#[test]
fn default_lead_is_215_ms_before_target() {
    let lead = LeadParams::default();
    assert_eq!(total_ms(&lead), 215.0);
    assert_eq!(config().zero_unix_ns(), TARGET - 215_000_000);
    let negative = LeadParams { safety_ms: float(500.0), ..LeadParams::default() };
    let late = TargetConfig { lead_ns: lead_ns(&negative), ..config() };
    assert!(late.zero_unix_ns() > TARGET);
}

#[test]
fn happy_path_measure_lock_finish() {
    let mut m = machine();
    let zero = m.config().zero_unix_ns();
    assert_eq!(m.step(Some(zero - 20 * 60 * S), false), None);
    assert_eq!(m.stage(), Stage::Armed);
    assert_eq!(m.step(Some(zero - 15 * 60 * S), false), Some(Action::Measure));
    assert_eq!(m.stage(), Stage::Measuring);
    assert_eq!(m.step(Some(zero - 10 * 60 * S), false), None);
    assert_eq!(m.step(Some(zero - 60 * S), false), Some(Action::Lock));
    assert!(m.is_locked());
    assert_eq!(m.step(Some(zero - 30 * S), false), None);
    assert_eq!(m.step(None, false), None);
    assert_eq!(m.step(Some(zero + 2 * S), true), Some(Action::Finish));
    assert_eq!(m.stage(), Stage::Done);
    assert!(m.is_over());
    assert_eq!(m.step(Some(zero + 3 * S), true), None);
}

#[test]
fn late_start_locks_directly_or_aborts() {
    let mut m = machine();
    let zero = m.config().zero_unix_ns();
    assert_eq!(m.step(Some(zero - 30 * S), false), Some(Action::Lock));

    let mut m = machine();
    assert_eq!(
        m.step(Some(zero - 2 * S), false),
        Some(Action::Abort(AbortReason::TooLateToLock))
    );
    assert_eq!(m.stage(), Stage::Aborted(AbortReason::TooLateToLock));

    let mut m = machine();
    assert_eq!(
        m.step(Some(zero + 1), false),
        Some(Action::Abort(AbortReason::TargetPassed))
    );
    assert_eq!(m.step(Some(zero + 2), false), None);
}

#[test]
fn unusable_model_waits_in_place() {
    let mut m = machine();
    assert_eq!(m.step(None, false), None);
    assert_eq!(m.stage(), Stage::Armed);
    let zero = m.config().zero_unix_ns();
    m.step(Some(zero - 15 * 60 * S), false);
    assert_eq!(m.step(None, false), None);
    assert_eq!(m.stage(), Stage::Measuring);
}

#[test]
fn new_keeps_lock_before_above_the_margin() {
    let cfg = TargetConfig {
        lock_before: Duration::from_secs(2),
        measure_before: Duration::from_secs(1),
        ..config()
    };
    let m = TargetMachine::new(cfg, Duration::from_millis(4_500));
    assert_eq!(m.config().lock_before, Duration::from_millis(5_500));
    assert_eq!(m.config().measure_before, Duration::from_millis(5_500));
}

fn pick(events: &[f64], z: f64) -> Option<f64> {
    let delays: Vec<Float64> = events.iter().map(|t| float(t - z)).collect();
    let lo = float(-(CALIBRATION_BEFORE_MS as f64 / 1e3));
    let hi = float(CALIBRATION_AFTER_MS as f64 / 1e3);
    pick_reaction(&delays, lo, hi).map(number)
}

#[test]
fn pick_reaction_takes_the_nearest_event_in_the_window() {
    let z = 1000.0;
    let events = [z - 1.0, z + 0.18, z + 0.25, z + 2.0];
    let r = pick(&events, z).unwrap();
    assert!((r - 0.18).abs() < 1e-9);
    assert_eq!(pick(&[z - 0.4, z + 0.8], z), None);
    let early = pick(&[z - 0.05], z).unwrap();
    assert!((early + 0.05).abs() < 1e-9);
    assert_eq!(pick(&[], z), None);
}

#[test]
fn the_first_of_two_as_near_is_picked() {
    assert_eq!(pick(&[0.25, -0.25], 0.0), Some(0.25));
    assert_eq!(pick(&[-0.25, 0.25], 0.0), Some(-0.25));
    assert_eq!(pick(&[f64::NAN, 0.5], 0.0), Some(0.5));
}

fn median_of(xs: &[f64]) -> Option<f64> {
    let v: Vec<Float64> = xs.iter().map(|x| float(*x)).collect();
    match median(&v) {
        Middle::Nothing => None,
        Middle::One(m) => Some(number(m)),
        Middle::Two(a, b) => Some((number(a) + number(b)) / 2.0),
    }
}

#[test]
fn median_handles_odd_even_and_empty() {
    assert_eq!(median_of(&[]), None);
    assert_eq!(median_of(&[3.0, 1.0, 2.0]), Some(2.0));
    assert_eq!(median_of(&[4.0, 1.0, 3.0, 2.0]), Some(2.5));
    assert_eq!(median_of(&[-1.0, -3.0, 2.0]), Some(-1.0));
}

#[test]
fn an_aborted_countdown_stays_aborted() {
    let mut m = machine();
    m.abort(AbortReason::Cancelled);
    assert!(m.is_over());
    let zero = m.config().zero_unix_ns();
    assert_eq!(m.step(Some(zero - 60 * S), false), None);
    assert_eq!(m.stage(), Stage::Aborted(AbortReason::Cancelled));
}

#[test]
fn the_file_gives_the_settings_of_a_countdown() {
    let t = TargetFile {
        target_unix_s: Some(1_800_000_000),
        reaction_ms: float(188.5),
        ..TargetFile::default()
    };
    assert_eq!(number(t.lead().reaction_ms), 188.5);
    let cfg = t.config(lead_ns(&t.lead())).unwrap();
    assert_eq!(cfg.target_unix_ns, 1_800_000_000 * 1_000_000_000);
    assert_eq!(cfg.lead_ns, 203_500_000);
    assert_eq!(cfg.lock_before, Duration::from_secs(60));
    assert_eq!(cfg.measure_before, Duration::from_secs(900));
    assert_eq!(TargetFile::default().config(0), None);

    let mut back = TargetFile::default();
    back.set_lead(t.lead());
    assert_eq!(back.lead(), t.lead());
}
