//! Runs of beats, aiming at a target, calibrating, and the chores of a frame.

use kairos::aim::{
    abort_text, clear_target, now_unix, proposed_target, rearmed, settle_lock, step_target,
    take_target, target_row, Now, RowFigures,
};
use kairos::beat::BeatPlan;
use kairos::calibrate::{adopt, end_round, request, round_text, CalibrationRun, Request, RoundEnd};
use kairos::display::WallClock;
use kairos::duration::Duration;
use kairos::float::Float64;
use kairos::frame::{
    frame_rate, heed, FirstChores, Flags, FrameClock, Heed, LastChores, Pending, PointerEvent,
    Toast, Wishes, ZoomSteps,
};
use kairos::model::{ClockModel, DriftTerms, ModelStatus, SourceKind};
use kairos::session::{
    calibration_plan, close_countdown, demo_lead, frames_line, min_lock_margin, spread, start,
    start_line, stop_line, turn_glow, turn_sound, BeatFrame, BeatSession, EndReason, LateFigures,
    Purpose, Setup, Start, StartFigures, StartNotes, Switches, Turn,
};
use kairos::snapshot::{read_number, snapshot_frames};
use kairos::strip::StripKind;
use kairos::target::{
    AbortReason, Action, LeadParams, Middle, Stage, TargetConfig, TargetFile, TargetMachine,
};
use kairos::theme::BeatStyle;
use kairos::time::{HostTime, Timebase};

const S: i128 = 1_000_000_000;

fn tb() -> Timebase {
    Timebase::new(1, 1)
}

fn host_ms(ms: u64) -> HostTime {
    HostTime::from_ticks(ms * 1_000_000)
}

fn float(x: f64) -> Float64 {
    Float64 { bits: x.to_bits() }
}

fn plan() -> BeatPlan {
    BeatPlan::new(host_ms(100_000), Duration::from_secs(1), 4)
}

fn all_on() -> Switches {
    Switches { sound_on: true, glow_on: true, glow_in_theme: true, reduce_motion: false }
}

#[test]
fn a_plan_starts_where_there_is_time() {
    // The first tick lands at 97 s.
    let s = start(&plan(), Purpose::Countdown, BeatStyle::Auto, all_on(), host_ms(96_500), tb());
    assert_eq!(
        s,
        Start::Go(Setup { kind: StripKind::Ball, glow: true, sound: true, lock_size: true })
    );
    let s = start(&plan(), Purpose::Demo, BeatStyle::Auto, all_on(), host_ms(96_501), tb());
    assert_eq!(s, Start::TooLate);
    let calm = Switches { reduce_motion: true, ..all_on() };
    let s = start(&plan(), Purpose::Demo, BeatStyle::Auto, calm, host_ms(0), tb());
    assert_eq!(
        s,
        Start::Go(Setup { kind: StripKind::Pulse, glow: false, sound: true, lock_size: false })
    );
}

#[test]
fn leads_leave_time_for_the_picture_and_the_audio() {
    assert_eq!(min_lock_margin(plan().visual_lead()), Duration::from_millis(4_500));
    assert_eq!(
        demo_lead(Duration::from_secs(10), Duration::from_secs(4)),
        Duration::from_secs(10)
    );
    assert_eq!(
        demo_lead(Duration::from_secs(2), Duration::from_secs(4)),
        Duration::from_millis(4_500)
    );
    let p = calibration_plan(host_ms(1_000), Duration::from_secs(1), 4, tb());
    assert_eq!(p.zero, host_ms(5_500));
    // The plan has one tick at least and thirty-two at most, and so has its lead.
    let one = calibration_plan(host_ms(1_000), Duration::from_secs(1), 0, tb());
    assert_eq!((one.zero, one.ticks), (host_ms(2_500), 1));
    let most = calibration_plan(host_ms(1_000), Duration::from_secs(1), 1_000, tb());
    assert_eq!((most.zero, most.ticks), (host_ms(33_500), 32));
    let shortest = calibration_plan(host_ms(1_000), Duration::zero(), 2, tb());
    assert_eq!(shortest.zero, host_ms(1_502));
}

#[test]
fn switches_turn_a_running_beat() {
    assert_eq!(turn_sound(true, false), Turn::Begin);
    assert_eq!(turn_sound(true, true), Turn::Keep);
    assert_eq!(turn_sound(false, true), Turn::End);
    assert_eq!(turn_glow(all_on(), false), Turn::Begin);
    assert_eq!(turn_glow(Switches { reduce_motion: true, ..all_on() }, false), Turn::Keep);
    assert_eq!(turn_glow(Switches { glow_on: false, ..all_on() }, true), Turn::End);
    assert_eq!(turn_glow(Switches { glow_on: false, ..all_on() }, false), Turn::Keep);
}

#[test]
fn frames_show_the_beat_and_remember_the_nearest() {
    let mut s = BeatSession::new(plan(), Purpose::Demo, StripKind::Ball);
    assert_eq!(s.nearest_frame_ns, vec![None; 4]);
    // Before the picture sets off at 96 s.
    assert_eq!(
        s.frame(host_ms(95_000), true, Duration::zero(), false, tb()),
        BeatFrame::Hidden
    );
    match s.frame(host_ms(95_000), true, Duration::zero(), true, tb()) {
        BeatFrame::Shown(p) => assert_eq!((p.beat, p.into), (0, Duration::zero())),
        other => panic!("{other:?}"),
    }
    match s.frame(host_ms(97_990), true, Duration::zero(), false, tb()) {
        BeatFrame::Shown(p) => assert_eq!(p.beat, 1),
        other => panic!("{other:?}"),
    }
    s.frame(host_ms(98_006), true, Duration::zero(), false, tb());
    s.frame(host_ms(98_022), true, Duration::zero(), false, tb());
    // Of −10, +6 and +22 ms around the second tick, +6 is kept.
    assert_eq!(s.nearest_frame_ns[1], Some(6_000_000));
    let before = s.nearest_frame_ns.clone();
    assert_eq!(
        s.frame(host_ms(101_500), true, Duration::zero(), false, tb()),
        BeatFrame::Ended
    );
    assert_eq!(s.nearest_frame_ns, before);
    // The picture may run behind.
    match s.frame(host_ms(101_500), false, Duration::from_millis(1), false, tb()) {
        BeatFrame::Shown(p) => assert!(p.done),
        other => panic!("{other:?}"),
    }
}

fn config() -> TargetConfig {
    TargetConfig {
        target_unix_ns: 1_800_000_000 * S,
        lead_ns: 215_000_000,
        measure_before: Duration::from_secs(900),
        lock_before: Duration::from_secs(60),
    }
}

fn locked() -> TargetMachine {
    let mut m = TargetMachine::new(config(), Duration::from_millis(4_500));
    let zero = m.config().zero_unix_ns();
    assert_eq!(step_target(&mut m, Some(zero - 30 * S)), Some(Action::Lock));
    m
}

#[test]
fn a_stopped_beat_closes_its_countdown() {
    let mut m = locked();
    close_countdown(&mut m, true);
    assert_eq!(m.stage(), Stage::Done);
    let mut m = locked();
    close_countdown(&mut m, false);
    assert_eq!(m.stage(), Stage::Aborted(AbortReason::Cancelled));
}

#[test]
fn a_lock_that_cannot_start_is_aborted() {
    let mut m = locked();
    let go = Start::Go(Setup { kind: StripKind::Ball, glow: true, sound: true, lock_size: true });
    assert!(settle_lock(&mut m, go));
    assert!(m.is_locked());
    // From the lock on frames leave it alone.
    assert_eq!(step_target(&mut m, Some(0)), None);
    assert!(!settle_lock(&mut m, Start::TooLate));
    assert_eq!(m.stage(), Stage::Aborted(AbortReason::TooLateToLock));
    assert_eq!(step_target(&mut m, Some(0)), None);
}

#[test]
fn a_waiting_countdown_takes_new_settings() {
    let m = rearmed(Stage::Measuring, Some(config()), Duration::from_secs(70)).unwrap();
    assert_eq!(m.stage(), Stage::Armed);
    assert_eq!(m.config().lock_before, Duration::from_secs(71));
    assert!(rearmed(Stage::Locked, Some(config()), Duration::from_secs(70)).is_none());
    assert!(rearmed(Stage::Done, Some(config()), Duration::from_secs(70)).is_none());
    assert!(rearmed(Stage::Armed, None, Duration::from_secs(70)).is_none());
}

#[test]
fn a_target_must_lie_ahead() {
    let mut file = TargetFile::default();
    let now = Now { unix_ns: 1_800_000_000 * S, from_model: true };
    assert_eq!(
        take_target(&mut file, 1_800_000_000, LeadParams::default(), now),
        Err("目標時刻已過（依標準時間）".to_string())
    );
    let system = Now { from_model: false, ..now };
    assert_eq!(
        take_target(&mut file, 1_799_999_999, LeadParams::default(), system),
        Err("目標時刻已過（依系統時鐘）".to_string())
    );
    assert_eq!(file, TargetFile::default());
    let lead = LeadParams { safety_ms: float(1.0), ..LeadParams::default() };
    assert_eq!(take_target(&mut file, 1_800_000_001, lead, now), Ok(()));
    assert_eq!(file.target_unix_s, Some(1_800_000_001));
    assert_eq!(file.lead(), lead);

    let mut target = Some(TargetMachine::new(config(), Duration::from_secs(1)));
    assert!(clear_target(&mut target, &mut file));
    assert!(target.is_none() && file.target_unix_s.is_none());
    assert!(!clear_target(&mut target, &mut file));
}

#[test]
fn the_time_comes_from_the_model_where_it_can() {
    let at = HostTime::from_ticks(1_000);
    let mut m = ClockModel::uncalibrated(SourceKind::Standard, at);
    assert_eq!(
        now_unix(&m, at, DriftTerms::none(), 7, tb()),
        Now { unix_ns: 1_007, from_model: false }
    );
    m.status = ModelStatus::Tracking;
    m.half_width_ns = 5;
    m.offset_ns = 100;
    assert_eq!(
        now_unix(&m, at, DriftTerms { drift_ns: 3, growth_ns: 0 }, 7, tb()),
        Now { unix_ns: 1_103, from_model: true }
    );
}

#[test]
fn the_next_full_hour_is_proposed() {
    assert_eq!(proposed_target(0), 3_600);
    assert_eq!(proposed_target(3_599), 3_600);
    assert_eq!(proposed_target(3_600), 7_200);
    assert_eq!(proposed_target(-1), 0);
    assert_eq!(proposed_target(-100), 0);
    assert_eq!(proposed_target(-3_600), 0);
    assert_eq!(proposed_target(-3_601), -3_600);
}

#[test]
fn the_target_row_says_how_it_stands() {
    let target = WallClock { hour: 9, minute: 5, second: 0, millis: 0 };
    let zero = WallClock { hour: 9, minute: 4, second: 59, millis: 85 };
    let f = RowFigures { remaining: "還有 1:02".into(), lead_ms: "215".into() };
    let row = |stage: Stage, usable: bool| target_row(stage, usable, &target, &zero, &f);
    assert_eq!(row(Stage::Armed, true), "目標 09:05:00 · 還有 1:02 · 提前 215 ms · 待命");
    assert_eq!(row(Stage::Measuring, true), "目標 09:05:00 · 還有 1:02 · 提前 215 ms · 量測中");
    assert_eq!(row(Stage::Armed, false), "目標 09:05:00 · 等待校時");
    assert_eq!(row(Stage::Locked, true), "目標 09:05:00 · 已鎖定 · 歸零 09:04:59.085");
    assert_eq!(row(Stage::Done, true), "目標 09:05:00 · 已結束");
    assert_eq!(
        row(Stage::Aborted(AbortReason::TooLateToLock), true),
        "目標 09:05:00 · 來不及鎖定"
    );
    assert_eq!(abort_text(AbortReason::TargetPassed), "已錯過");
    assert_eq!(abort_text(AbortReason::Cancelled), "已取消");
}

#[test]
fn a_calibration_runs_its_rounds() {
    let mut run = CalibrationRun::new(3);
    assert_eq!((run.total(), run.next_round()), (3, 1));
    assert_eq!(end_round(&mut run, true, Some(float(180.0))), RoundEnd::Next(2));
    assert_eq!(end_round(&mut run, true, None), RoundEnd::Next(3));
    let e = end_round(&mut run, true, Some(float(200.0)));
    assert_eq!(e, RoundEnd::Finished(Middle::Two(float(180.0), float(200.0))));
    assert!(run.is_complete());
    assert_eq!(run.samples_ms(), vec![float(180.0), float(200.0)]);
    assert_eq!(
        run.summary(&vec![Some("+180".into()), None, Some("+200".into())], &Some("+190".into())),
        "第 1 輪 +180 ms、第 2 輪 沒按到、第 3 輪 +200 ms；中位 +190 ms"
    );
    assert_eq!(
        round_text(e, 3, &Some("+190".into())),
        "校正完成：中位 +190 ms。按「採用校正結果」寫進反應時間"
    );
    assert_eq!(round_text(e, 3, &None), "校正完成，但沒有任何一輪按到");
    assert_eq!(round_text(RoundEnd::Next(2), 3, &None), "校正中：第 2/3 輪");

    let mut stopped = CalibrationRun::new(0);
    assert_eq!(stopped.total(), 1);
    assert_eq!(end_round(&mut stopped, false, Some(float(1.0))), RoundEnd::Cancelled);
    assert!(stopped.rounds.is_empty());
    assert_eq!(round_text(RoundEnd::Cancelled, 1, &None), "校正已取消");
    assert_eq!(stopped.median_ms(), Middle::Nothing);
    assert_eq!(stopped.summary(&vec![], &None), "；沒有有效的輪次");
}

#[test]
fn a_calibration_waits_for_no_beat() {
    assert!(matches!(request(true, Some(Purpose::Calibration)), Request::Stop));
    assert!(matches!(request(false, None), Request::Begin));
    match request(false, Some(Purpose::Countdown)) {
        Request::Refused(s) => assert_eq!(s, "倒數進行中，先停止節拍再校正"),
        _ => panic!("not refused"),
    }
}

#[test]
fn a_measured_reaction_is_taken_over_once() {
    let mut file = TargetFile::default();
    let mut pending = Some(float(190.0));
    assert!(adopt(&mut file, &mut pending));
    assert_eq!(file.reaction_ms, float(190.0));
    assert!(!adopt(&mut file, &mut pending));
    assert_eq!(file.reaction_ms, float(190.0));
}

#[test]
fn lines_on_a_run() {
    let figures = StartFigures {
        zero_local: "09:05:00.000".into(),
        until_zero_s: "9.500".into(),
        period_ms: "1000".into(),
        visual_lead_s: "4.0".into(),
        fps: "60".into(),
    };
    let mut notes = StartNotes {
        total_beats: 4,
        silent_landings: 0,
        style_chosen: true,
        sounding: false,
        glow_screens: 2,
        reduce_motion: true,
        slewing: false,
    };
    assert_eq!(
        start_line(Purpose::Demo, &plan(), StripKind::Ring, &figures, &notes),
        "節拍（試聽）：歸零於本地時間 09:05:00.000（9.500 秒後），4 拍、拍距 1000 ms、畫面歸零前 4.0 秒起跑（共 4 拍）、樣式 環（設定指定）、聲音關、光暈 2 個螢幕、刷新率 60 Hz；系統開著「減少動態效果」"
    );
    notes.total_beats = 6;
    notes.silent_landings = 2;
    let line = start_line(Purpose::Demo, &plan(), StripKind::Ring, &figures, &notes);
    assert!(line.contains("秒起跑（共 6 拍，前 2 次落地無聲）、樣式"));
    for (reason, text) in [
        (EndReason::Finished, "結束"),
        (EndReason::StoppedByUser, "手動停止"),
        (EndReason::Rescheduled, "重新排程"),
        (EndReason::TargetChanged, "重新設定目標"),
        (EndReason::TargetCleared, "解除目標"),
        (EndReason::CalibrationStopped, "停止校正"),
    ] {
        assert_eq!(stop_line(Purpose::Calibration, reason), format!("節拍（校正）：{text}"));
    }
    let late = Some(LateFigures {
        middle: "1.20".into(),
        lowest: "0.90".into(),
        highest: "2.00".into(),
    });
    assert_eq!(
        frames_line("60", "8.3", &late, &vec![Some("+6.0".into()), None]),
        "節拍畫面：60 Hz，半格 8.3 ms，回呼晚於 vsync 中位 1.20 ms（0.90–2.00）；第 0 拍最近一格差 +6.0 ms；第 1 拍沒畫到"
    );
    assert_eq!(frames_line("60", "8.3", &None, &vec![]), "節拍畫面：60 Hz，半格 8.3 ms");
}

#[test]
fn a_spread_has_its_ends_and_the_upper_middle() {
    assert_eq!(spread(&vec![]), None);
    assert_eq!(
        spread(&vec![float(3.0), float(1.0), float(2.0), float(4.0)]),
        Some((float(1.0), float(3.0), float(4.0)))
    );
}

#[test]
fn flags_are_taken_up_once() {
    let mut p = Pending::default();
    p.flags.screen_dirty = true;
    p.flags.resize_dirty = true;
    assert_eq!(
        p.begin(true),
        FirstChores { refresh_screen: true, measure_width: true, let_go: false }
    );
    assert_eq!(
        p.begin(true),
        FirstChores { refresh_screen: false, measure_width: false, let_go: false }
    );
    // A size that changed by itself does not count, letting go does.
    p.flags.resize_dirty = true;
    assert!(!p.begin(false).measure_width);
    p.flags.live_resize_ended = true;
    let c = p.begin(false);
    assert!(c.measure_width && c.let_go);
    assert_eq!(p.flags, Flags::default());
}

#[test]
fn a_zoom_waits_for_its_turn() {
    let mut p = Pending::default();
    assert_eq!(p.take_zoom(true, host_ms(0), tb()), None);
    p.ask_zoom(float(9.0));
    assert_eq!(p.take_zoom(false, host_ms(0), tb()), Some(float(3.0)));
    assert_eq!(
        p.apply_zoom(true, false, true, host_ms(0)),
        ZoomSteps { rebuild: true, fit_window: false, settle: false }
    );
    p.ask_zoom(float(1.5));
    assert_eq!(p.take_zoom(false, host_ms(49), tb()), None);
    assert_eq!(p.take_zoom(false, host_ms(50), tb()), Some(float(1.5)));
    p.ask_zoom(float(1.5));
    assert_eq!(p.take_zoom(true, host_ms(50), tb()), Some(float(1.5)));
    assert_eq!(
        p.apply_zoom(false, true, false, host_ms(60)),
        ZoomSteps { rebuild: false, fit_window: true, settle: true }
    );
    assert_eq!(p.settings_dirty_since, Some(host_ms(60)));
}

#[test]
fn settings_are_saved_once_they_rest() {
    let mut p = Pending::default();
    assert!(!p.save_due(host_ms(1_000), tb()));
    p.mark_settings_dirty(host_ms(1_000));
    assert!(!p.save_due(host_ms(1_299), tb()));
    p.mark_settings_dirty(host_ms(1_200));
    assert!(!p.save_due(host_ms(1_300), tb()));
    assert!(p.save_due(host_ms(1_500), tb()));
    assert!(!p.save_due(host_ms(9_000), tb()));
}

#[test]
fn a_theme_is_read_after_a_while_and_never_in_a_countdown() {
    let nothing = LastChores { rebuild_for_scale: false, reload_theme: false };
    let mut p = Pending::default();
    p.flags.theme_dirty = true;
    p.flags.scale_dirty = true;
    assert_eq!(p.end(true, host_ms(0), tb()), nothing);
    assert!(p.flags.theme_dirty && p.flags.scale_dirty);
    assert_eq!(
        p.end(false, host_ms(1_000), tb()),
        LastChores { rebuild_for_scale: true, reload_theme: false }
    );
    p.flags.theme_dirty = true;
    assert_eq!(p.end(false, host_ms(1_149), tb()), nothing);
    assert!(p.end(false, host_ms(1_150), tb()).reload_theme);
    assert_eq!(p.end(false, host_ms(5_000), tb()), nothing);
}

#[test]
fn wishes_begin_once() {
    let mut c = FrameClock::new(Wishes { demo: true, calibrate: true, settings: true });
    let none = Wishes { demo: false, calibrate: false, settings: false };
    assert_eq!(c.tick(false), none);
    assert_eq!(c.tick(true), Wishes { demo: true, ..none });
    for frame in 3..=100 {
        let begins = c.tick(true);
        assert_eq!(begins.settings, frame == 31, "{frame}");
        assert_eq!(begins.calibrate, frame == 61, "{frame}");
        assert!(!begins.demo);
    }
}

#[test]
fn rows_are_written_once_a_second_and_after_a_toast() {
    let mut c = FrameClock::new(Wishes { demo: false, calibrate: false, settings: false });
    let at = host_ms(5_000);
    assert!(c.new_second(Some(10 * S), at, tb()));
    assert!(!c.new_second(Some(10 * S + 999_999_999), at, tb()));
    assert!(c.new_second(Some(11 * S), at, tb()));
    assert!(c.new_second(None, at, tb()));
    assert_eq!(c.caption_second, Some(-5));
    assert!(!c.new_second(None, host_ms(5_999), tb()));
    assert!(c.new_second(Some(-1), at, tb()));
    assert_eq!(c.caption_second, Some(-1));

    assert_eq!(c.toast(host_ms(0), tb()), Toast::Absent);
    c.show_toast(host_ms(1_000));
    assert_eq!(c.toast(host_ms(2_499), tb()), Toast::Shown);
    assert_eq!(c.toast(host_ms(2_500), tb()), Toast::Over);
    assert_eq!(c.toast(host_ms(2_501), tb()), Toast::Absent);
    assert!(c.new_second(Some(-1), at, tb()));
}

#[test]
fn pointer_events_on_the_panel_are_heeded() {
    let scroll = PointerEvent::Scroll { momentum: false, inverted: true, precise: false };
    assert_eq!(heed(false, scroll), Heed::Pass);
    assert_eq!(heed(true, scroll), Heed::Scroll { turned: true, precise: false });
    let rolling = PointerEvent::Scroll { momentum: true, inverted: true, precise: true };
    assert_eq!(heed(true, rolling), Heed::Swallow);
    assert_eq!(
        heed(true, PointerEvent::Magnify { ended: true }),
        Heed::Magnify { ended: true }
    );
    assert_eq!(heed(true, PointerEvent::Other), Heed::Pass);
}

#[test]
fn a_beat_asks_for_the_screens_rate() {
    assert_eq!(frame_rate(true, float(120.0), float(60.0)), float(120.0));
    assert_eq!(frame_rate(false, float(120.0), float(60.0)), float(60.0));
    assert_eq!(frame_rate(true, float(500.0), float(60.0)), float(240.0));
    assert_eq!(frame_rate(false, float(120.0), float(1.0)), float(10.0));
}

#[test]
fn frames_for_pictures_are_read_from_a_list() {
    assert_eq!(snapshot_frames(None), vec![120, 900]);
    assert_eq!(snapshot_frames(Some("120,600")), vec![120, 600]);
    assert_eq!(snapshot_frames(Some(" 5 ,x,,7")), vec![5, 7]);
    assert_eq!(snapshot_frames(Some("")), Vec::<u64>::new());
    for text in ["0", "+7", "007", "18446744073709551615", "18446744073709551616", "+", "-1", "1 2", "", "++1", "１"] {
        assert_eq!(read_number(text), text.parse::<u64>().ok(), "{text}");
    }
}
