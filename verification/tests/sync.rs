//! Sampling: sleeps, settings, the run of a cycle and what is told of it.

use kairos::duration::Duration;
use kairos::estimate::interval::SolvedBounds;
use kairos::float::Float64;
use kairos::model::{ClockModel, ModelStatus, SourceKind};
use kairos::source::client::QueryError;
use kairos::source::ntp::{Exchange, NtpError, NtpResponse, NtpTimestamp};
use kairos::source::udp::AddressV4;
use kairos::source::Sample;
use kairos::sync::event::{EventFigures, SamplerEvent};
use kairos::sync::sampler::{
    apply_staleness, freeze, Ask, Command, CycleOutcome, ModelSlot, Outcome, Sampler, Turn, TurnEnd,
};
use kairos::sync::settings::{SamplerConfig, SyncSettings};
use kairos::sync::sleep::SleepDetector;
use kairos::time::{HostTime, Timebase};

fn tb() -> Timebase {
    Timebase::new(1, 1)
}

fn host(ns: u64) -> HostTime {
    HostTime::from_nanos(ns, tb())
}

#[test]
fn sleep_detector_ignores_jitter_below_threshold() {
    let mut d = SleepDetector::from_readings(1_000, 5_000, 100);
    assert_eq!(d.check_readings(2_000, 6_050), None);
    assert_eq!(d.check_readings(3_000, 7_120), Some(120));
    assert_eq!(d.check_readings(4_000, 8_120), None);
}

#[test]
fn sleep_detector_reports_each_sleep_once() {
    let mut d = SleepDetector::from_readings(0, 0, 10);
    assert_eq!(d.check_readings(100, 100), None);
    assert_eq!(d.check_readings(200, 1_200), Some(1_000));
    assert_eq!(d.check_readings(300, 1_300), None);
    assert_eq!(d.check_readings(400, 3_400), Some(2_000));
}

#[test]
fn sleep_detector_on_live_clocks_is_quiet_right_after_start() {
    let start = std::time::Instant::now();
    let reading = || start.elapsed().as_nanos() as u64;
    let mut d = SleepDetector::new(Duration::from_millis(500), reading(), reading(), tb());
    assert_eq!(d.check(reading(), reading(), tb()), None);
    assert_eq!(d.check(reading(), reading(), tb()), None);
}

#[test]
fn sleep_detector_tolerates_continuous_read_before_absolute() {
    let mut d = SleepDetector::from_readings(1_000, 1_000, 10);
    assert_eq!(d.check_readings(2_005, 2_000), None);
}

#[test]
fn a_sleep_comes_back_as_a_span() {
    let mut d = SleepDetector::new(Duration::from_millis(500), 0, 0, tb());
    assert_eq!(
        d.check(1_000, 3_000_001_000, tb()),
        Some(Duration::from_secs(3))
    );
}

fn loopback_config() -> SamplerConfig {
    SamplerConfig {
        servers: vec!["127.0.0.1".into()],
        port: 9,
        burst: 1,
        spacing: Duration::zero(),
        cycle: Duration::from_secs(60),
        socket_timeout: Duration::from_millis(50),
        ..SamplerConfig::default()
    }
}

const LOOPBACK: AddressV4 = AddressV4 { ip: 0x7f00_0001, port: 9 };

/// Runs a cycle in which nobody answers, and gives the model it publishes.
fn silent_cycle(s: &mut Sampler, now_ns: u64) -> ClockModel {
    assert_eq!(s.start_cycle(now_ns, now_ns, false, host(now_ns), tb()), None);
    loop {
        match s.ask() {
            Ask::Resolve(_) => s.resolved(Ok(LOOPBACK), host(now_ns)),
            Ask::Burst { count, .. } => {
                let mut results = Vec::new();
                for _ in 0..count {
                    results.push(Outcome {
                        result: Err(QueryError::NoMatchingResponse),
                        at: host(now_ns),
                    });
                }
                s.burst_done(&results, tb());
            }
            Ask::Close => break,
            Ask::Nothing => panic!("no cycle"),
        }
    }
    assert_eq!(
        s.close(now_ns, now_ns, false, host(now_ns), tb()),
        CycleOutcome::Publish
    );
    let c = s.estimator.begin();
    s.publish(&c, host(now_ns), None, tb())
}

#[test]
fn resample_now_starts_a_new_cycle_before_the_period_ends() {
    let mut s = Sampler::new(loopback_config(), 0, 0, tb());
    assert_eq!(s.next_turn(TurnEnd::Started, false), Turn::Cycle);
    let m = silent_cycle(&mut s, 1_000);
    assert_eq!(m.status, ModelStatus::Uncalibrated);
    assert!(!m.is_usable());
    assert_eq!(
        s.next_turn(TurnEnd::CycleDone, false),
        Turn::WaitForCommand(Duration::from_secs(60))
    );
    s.absorb(Command::Resample);
    assert_eq!(s.next_turn(TurnEnd::Roused, false), Turn::Cycle);
    silent_cycle(&mut s, 2_000);
    assert_eq!(s.round, 2);
}

#[test]
fn pause_freezes_the_model_and_resume_runs_a_cycle() {
    let before = tracking(host(5));
    let frozen = freeze(before).unwrap();
    assert_eq!(frozen.status, ModelStatus::Frozen);
    assert_eq!(frozen.offset_ns, before.offset_ns);
    assert!(frozen.is_usable());

    let mut s = Sampler::new(loopback_config(), 0, 0, tb());
    silent_cycle(&mut s, 1_000);
    // No cycle while it is frozen.
    assert_eq!(s.next_turn(TurnEnd::Roused, true), Turn::WaitForResume);
    assert_eq!(s.next_turn(TurnEnd::Resumed, false), Turn::Cycle);
    let m = silent_cycle(&mut s, 2_000);
    assert_ne!(m.status, ModelStatus::Frozen);

    assert_eq!(freeze(ClockModel::uncalibrated(SourceKind::Standard, host(1))), None);
}

fn tracking(reference: HostTime) -> ClockModel {
    ClockModel {
        source: SourceKind::Standard,
        status: ModelStatus::Tracking,
        reference,
        offset_ns: 1_700_000_000_000_000_000,
        drift: Float64::zero(),
        half_width_ns: 5_000_000,
        half_width_growth_ns_per_s: Float64 { bits: 100.0f64.to_bits() },
    }
}

#[test]
fn sync_settings_are_validated() {
    let ok = SyncSettings::new(
        vec![" a.example ".into(), "b.example".into()],
        4,
        Duration::from_secs(1),
        Duration::from_secs(180),
    )
    .unwrap();
    assert_eq!(ok.servers, vec!["a.example", "b.example"]);
    let s = Duration::from_secs(1);
    let c = Duration::from_secs(180);
    assert!(SyncSettings::new(vec![], 4, s, c).is_err());
    assert!(SyncSettings::new(vec!["x".into(); 9], 4, s, c).is_err());
    assert!(SyncSettings::new(vec!["a b".into()], 4, s, c).is_err());
    assert!(SyncSettings::new(vec!["".into()], 4, s, c).is_err());
    assert!(SyncSettings::new(vec!["a".into()], 0, s, c).is_err());
    assert!(SyncSettings::new(vec!["a".into()], 9, s, c).is_err());
    assert!(SyncSettings::new(vec!["a".into()], 4, Duration::from_millis(100), c).is_err());
    assert!(SyncSettings::new(vec!["a".into()], 4, s, Duration::from_secs(30)).is_err());
    let from = SyncSettings::from_config(&SamplerConfig::default());
    assert_eq!(from.servers.len(), 3);
    assert_eq!(from.cycle, Duration::from_secs(180));
}

#[test]
fn a_bad_server_name_is_quoted() {
    let s = Duration::from_secs(1);
    let c = Duration::from_secs(180);
    let e = SyncSettings::new(vec!["a\tb".into()], 4, s, c).unwrap_err();
    assert!(e.contains("\"a\\tb\""), "{e}");
}

#[test]
fn status_counts_failures_and_reconfigure_runs_a_cycle_immediately() {
    let mut s = Sampler::new(loopback_config(), 0, 0, tb());
    let initial = s.status();
    assert_eq!(initial.servers.len(), 1);
    assert_eq!(initial.servers[0].host, "127.0.0.1");
    assert_eq!(initial.settings.as_ref().unwrap().burst, 1);
    silent_cycle(&mut s, 1_000);
    let after = s.status();
    assert_eq!(after.round, 1);
    let one = &after.servers[0];
    assert_eq!((one.ok, one.failed), (0, 1));
    assert_eq!(one.last_error.as_deref(), Some("逾時"));
    assert_eq!(one.addr.map(|a| a.port), Some(9));
    assert!(one.last_at.is_some() && one.last_success_at.is_none());

    let settings = SyncSettings::new(
        vec!["127.0.0.1".into(), "localhost".into()],
        1,
        Duration::from_millis(200),
        Duration::from_secs(60),
    )
    .unwrap();
    s.absorb(Command::Reconfigure(settings.clone()));
    assert_eq!(s.next_turn(TurnEnd::Roused, false), Turn::Cycle);
    assert_eq!(s.apply_pending(), Some(settings.servers.clone()));
    s.start_cycle(2_000, 2_000, false, host(2_000), tb());
    assert_eq!(s.round, 2);
    let status = s.status();
    assert_eq!(status.settings.as_ref(), Some(&settings));
    assert_eq!(status.servers.len(), 2);
    assert_eq!(status.servers[0].failed, 1);
    assert_eq!(status.servers[1].host, "localhost");
}

#[test]
fn reconfigure_while_paused_waits_for_resume() {
    let mut s = Sampler::new(loopback_config(), 0, 0, tb());
    silent_cycle(&mut s, 1_000);
    let settings = SyncSettings::new(
        vec!["localhost".into()],
        1,
        Duration::from_millis(200),
        Duration::from_secs(60),
    )
    .unwrap();
    s.absorb(Command::Reconfigure(settings.clone()));
    assert_eq!(s.next_turn(TurnEnd::Roused, true), Turn::WaitForResume);
    assert_eq!(s.status().servers[0].host, "127.0.0.1");

    assert_eq!(s.next_turn(TurnEnd::Resumed, false), Turn::Cycle);
    assert_eq!(s.apply_pending(), Some(vec!["localhost".to_string()]));
    assert_eq!(s.apply_pending(), None);
    s.start_cycle(2_000, 2_000, false, host(2_000), tb());
    assert_eq!(s.round, 2);
    assert_eq!(s.status().servers[0].host, "localhost");
}

#[test]
fn staleness_after_wake_without_samples_is_unusable_stale() {
    let now = host(1_000_000_000_000);
    let m = apply_staleness(
        ClockModel::uncalibrated(SourceKind::Standard, now),
        now,
        None,
        Duration::from_secs(600),
        true,
        tb(),
    );
    assert_eq!(m.status, ModelStatus::Stale);
    assert!(!m.is_usable());
}

#[test]
fn staleness_without_wake_and_without_samples_stays_uncalibrated() {
    let now = host(1_000_000_000_000);
    let m = apply_staleness(
        ClockModel::uncalibrated(SourceKind::Standard, now),
        now,
        None,
        Duration::from_secs(600),
        false,
        tb(),
    );
    assert_eq!(m.status, ModelStatus::Uncalibrated);
}

#[test]
fn staleness_keeps_numbers_when_samples_are_old() {
    let now = host(1_000_000_000_000);
    let old = now.minus(Duration::from_secs(601), tb());
    let m = apply_staleness(
        tracking(now),
        now,
        Some(old),
        Duration::from_secs(600),
        false,
        tb(),
    );
    assert_eq!(m.status, ModelStatus::Stale);
    assert!(m.is_usable());
    assert_eq!(m.offset_ns, tracking(now).offset_ns);

    let fresh = now.minus(Duration::from_secs(30), tb());
    let m = apply_staleness(
        tracking(now),
        now,
        Some(fresh),
        Duration::from_secs(600),
        false,
        tb(),
    );
    assert_eq!(m.status, ModelStatus::Tracking);
}

fn exchange(at_ns: u64) -> Exchange {
    let response = NtpResponse {
        leap_indicator: 0,
        version: 4,
        stratum: 2,
        precision: -23,
        root_delay_ns: 0,
        root_dispersion_ns: 0,
        reference_id: [10, 0, 0, 1],
        origin: NtpTimestamp(7),
        receive_unix_ns: 0,
        transmit_unix_ns: 0,
    };
    Exchange {
        sample: Sample::new(SourceKind::Standard, host(at_ns), 900, 1_100).unwrap(),
        response,
        sent: host(at_ns),
        received: host(at_ns + 40),
        round_trip: Duration::from_nanos(40),
    }
}

#[test]
fn an_answer_is_counted_and_becomes_the_model() {
    let mut s = Sampler::new(loopback_config(), 0, 0, tb());
    s.start_cycle(1_000, 1_000, false, host(1_000), tb());
    assert_eq!(s.ask(), Ask::Resolve(0));
    s.resolved(Ok(LOOPBACK), host(1_000));
    assert_eq!(
        s.ask(),
        Ask::Burst { server: 0, addr: LOOPBACK, count: 1, spacing: Duration::zero() }
    );
    s.burst_done(&vec![Outcome { result: Ok(exchange(1_000)), at: host(1_050) }], tb());
    assert_eq!(s.close(1_100, 1_100, false, host(1_100), tb()), CycleOutcome::Publish);
    let c = s.estimator.begin();
    assert_eq!(c.working.len(), 1);
    let bounds = SolvedBounds {
        mid_ns: 3,
        half_ns: 100,
        drift: Float64::zero(),
        growth: Float64::zero(),
    };
    let m = s.publish(&c, host(1_100), Some(bounds), tb());
    assert_eq!(m.status, ModelStatus::Converging);
    // The sample's midpoint is the origin.
    assert_eq!(m.offset_ns, 1_003);
    let status = s.status();
    let one = &status.servers[0];
    assert_eq!((one.ok, one.failed), (1, 0));
    assert_eq!(one.last_success_at, Some(host(1_050)));
    assert_eq!(one.last_stratum, Some(2));
    assert_eq!(one.last_reference_id.as_deref(), Some("10.0.0.1"));
    assert_eq!(one.last_half_width_ns, Some(100));
    assert_eq!(one.last_round_trip, Some(Duration::from_nanos(40)));
    assert_eq!(status.samples, 1);
}

#[test]
fn a_name_that_does_not_resolve_costs_a_failure_and_the_turn() {
    let mut config = loopback_config();
    config.servers = vec!["nowhere".into(), "127.0.0.1".into()];
    let mut s = Sampler::new(config, 0, 0, tb());
    s.start_cycle(1_000, 1_000, false, host(1_000), tb());
    s.resolved(Err("no such host".into()), host(1_000));
    assert_eq!(s.ask(), Ask::Resolve(1));
    let status = s.status();
    assert_eq!(status.servers[0].failed, 1);
    assert_eq!(status.servers[0].last_error.as_deref(), Some("解析失敗：no such host"));
}

#[test]
fn a_sleep_between_cycles_clears_the_samples() {
    let mut s = Sampler::new(loopback_config(), 0, 0, tb());
    s.start_cycle(1_000, 1_000, false, host(1_000), tb());
    s.resolved(Ok(LOOPBACK), host(1_000));
    s.burst_done(&vec![Outcome { result: Ok(exchange(1_000)), at: host(1_050) }], tb());
    s.close(1_100, 1_100, false, host(1_100), tb());
    assert_eq!(s.status().samples, 1);

    let hour = 3_600_000_000_000u64;
    let woken = s.start_cycle(2_000, 2_000 + hour, false, host(2_000), tb()).unwrap();
    assert_eq!(woken.slept, Duration::from_secs(3_600));
    let shown = woken.model.unwrap();
    assert_eq!(shown.status, ModelStatus::Stale);
    assert!(!shown.is_usable());
    assert_eq!(s.status().samples, 0);
    // With nobody answering, what is published is stale too.
    s.resolved(Ok(LOOPBACK), host(2_000));
    s.burst_done(
        &vec![Outcome { result: Err(QueryError::NoMatchingResponse), at: host(2_000) }],
        tb(),
    );
    s.close(2_100, 2_100 + hour, false, host(2_100), tb());
    let c = s.estimator.begin();
    assert_eq!(s.publish(&c, host(2_100), None, tb()).status, ModelStatus::Stale);
}

#[test]
fn a_sleep_on_the_way_spoils_the_cycle() {
    let mut s = Sampler::new(loopback_config(), 0, 0, tb());
    s.start_cycle(1_000, 1_000, false, host(1_000), tb());
    s.resolved(Ok(LOOPBACK), host(1_000));
    s.burst_done(&vec![Outcome { result: Ok(exchange(1_000)), at: host(1_050) }], tb());
    match s.close(1_100, 60_000_001_100, false, host(1_100), tb()) {
        CycleOutcome::SleptMidCycle(w) => assert_eq!(w.slept, Duration::from_secs(60)),
        other => panic!("{other:?}"),
    }
    assert_eq!(s.next_turn(TurnEnd::Slept, false), Turn::Cycle);
    assert_eq!(s.status().samples, 0);
}

#[test]
fn a_pause_on_the_way_withholds_the_model() {
    let mut s = Sampler::new(loopback_config(), 0, 0, tb());
    s.start_cycle(1_000, 1_000, false, host(1_000), tb());
    s.resolved(Ok(LOOPBACK), host(1_000));
    s.burst_done(&vec![Outcome { result: Ok(exchange(1_000)), at: host(1_050) }], tb());
    assert_eq!(s.close(1_100, 1_100, true, host(1_100), tb()), CycleOutcome::Withheld);
    assert_eq!(s.status().samples, 1);
    assert_eq!(s.next_turn(TurnEnd::Abandoned, false), Turn::Stop);
}

#[test]
fn slot_roundtrips_model() {
    let m0 = ClockModel::uncalibrated(SourceKind::Standard, HostTime::from_ticks(1));
    let mut slot = ModelSlot::new(m0);
    assert_eq!(slot.get(), m0);

    let mut m1 = m0;
    m1.offset_ns = 42;
    m1.status = ModelStatus::Tracking;
    let other = &mut slot;
    other.set(m1);
    assert_eq!(slot.get(), m1);
}

#[test]
fn a_pause_outlasts_a_sleep() {
    let mut s = Sampler::new(loopback_config(), 0, 0, tb());
    s.start_cycle(1_000, 1_000, false, host(1_000), tb());
    s.resolved(Ok(LOOPBACK), host(1_000));
    s.burst_done(&vec![Outcome { result: Ok(exchange(1_000)), at: host(1_050) }], tb());
    match s.close(1_100, 60_000_001_100, true, host(1_100), tb()) {
        CycleOutcome::SleptMidCycle(w) => {
            assert_eq!(w.slept, Duration::from_secs(60));
            assert_eq!(w.model, None);
        }
        other => panic!("{other:?}"),
    }
    // The samples are gone all the same.
    assert_eq!(s.status().samples, 0);
    assert_eq!(s.next_turn(TurnEnd::Slept, true), Turn::WaitForResume);
    let woken = s.start_cycle(2_000, 120_000_002_000, true, host(2_000), tb()).unwrap();
    assert_eq!(woken.model, None);
}

#[test]
fn a_paused_slot_keeps_the_frozen_model() {
    let mut slot = ModelSlot::new(ClockModel::uncalibrated(SourceKind::Standard, host(1)));
    assert!(slot.offer(tracking(host(5))));
    slot.pause();
    assert!(slot.is_paused());
    let frozen = slot.get();
    assert_eq!(frozen, ClockModel { status: ModelStatus::Frozen, ..tracking(host(5)) });
    assert!(!slot.offer(tracking(host(6))));
    assert!(!slot.offer(ClockModel::uncalibrated(SourceKind::Standard, host(7))));
    slot.pause();
    assert_eq!(slot.get(), frozen);
    slot.resume();
    assert_eq!(slot.get(), frozen);
    assert!(slot.offer(tracking(host(8))));
    assert_eq!(slot.get(), tracking(host(8)));

    // A model of no use is kept as it is.
    let unusable = ClockModel::uncalibrated(SourceKind::Standard, host(1));
    let mut slot = ModelSlot::new(unusable);
    slot.pause();
    assert!(!slot.offer(tracking(host(2))));
    assert_eq!(slot.get(), unusable);
}

fn figures() -> EventFigures {
    EventFigures {
        round_trip: "40.0".into(),
        midpoint: "+88.0".into(),
        half_width: "8.0".into(),
        drift: "+12.3".into(),
        drift_bound: "480".into(),
        slept: "3.0".into(),
    }
}

#[test]
fn events_have_words() {
    let f = figures();
    let say = |e: SamplerEvent| e.describe(&f);
    assert_eq!(say(SamplerEvent::CycleStarted { round: 2 }), "第 2 輪取樣");
    assert_eq!(
        say(SamplerEvent::Reconfigured { servers: vec!["a".into(), "b".into()] }),
        "換上新設定：a、b，立刻跑一輪"
    );
    assert_eq!(
        say(SamplerEvent::ResolveFailed { host: "a".into(), error: "x".into() }),
        "a：解析失敗：x"
    );
    assert_eq!(
        say(SamplerEvent::Exchange {
            host: "a".into(),
            addr: LOOPBACK,
            result: Ok(exchange(1_000))
        }),
        "a（127.0.0.1）：往返 40.0 ms，中點 +88.0 ms ± 8.0 ms，stratum 2 / 10.0.0.1"
    );
    assert_eq!(
        say(SamplerEvent::Exchange {
            host: "a".into(),
            addr: LOOPBACK,
            result: Err(QueryError::NoMatchingResponse)
        }),
        "a：逾時"
    );
    assert_eq!(
        say(SamplerEvent::Exchange {
            host: "a".into(),
            addr: LOOPBACK,
            result: Err(QueryError::Ntp(NtpError::Unsynchronized))
        }),
        "a：失敗：NTP：伺服器未同步（LI=3）"
    );
    assert_eq!(say(SamplerEvent::Paused), "暫停取樣，模型凍結");
    assert_eq!(say(SamplerEvent::Resumed), "恢復取樣，立刻跑一輪");
    assert_eq!(
        say(SamplerEvent::SleepDetected { slept: Duration::from_secs(3) }),
        "偵測到睡眠 3.0 秒，樣本清空、重新校時"
    );
    assert_eq!(
        say(SamplerEvent::Published { model: tracking(host(1)), samples: 12, rejected: 3 }),
        "模型 Tracking：+88.0 ms ± 8.0 ms，漂移 +12.3 ± 480 ppm，12 筆，丟 3 筆"
    );
    assert_eq!(
        say(SamplerEvent::Published {
            model: ClockModel::uncalibrated(SourceKind::Standard, host(1)),
            samples: 0,
            rejected: 0
        }),
        "模型 Uncalibrated：沒有可用樣本"
    );
}
