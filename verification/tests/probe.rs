//! Judging kernel stamps and callback time stamps.

use kairos::probe::{
    int_spread, jitter_line, judge_callbacks, judge_stamps, CallbackClock, CallbackRow, IntSpread,
    Stamp, StampUnit,
};
use kairos::time::Timebase;

fn stamp(kernel: Option<u64>, user: u64) -> Stamp {
    Stamp { kernel, user, cut_short: false }
}

fn row(ahead_ns: i128, period_ns: i128) -> CallbackRow {
    CallbackRow { ahead_ns, playback_ns: 1_000, period_ns, frames: 480 }
}

#[test]
fn a_spread_takes_the_larger_of_two_in_the_middle() {
    assert_eq!(int_spread(&vec![5, -1, 3]), IntSpread { lowest: -1, middle: 3, highest: 5 });
    assert_eq!(int_spread(&vec![4, 1, 3, 2]), IntSpread { lowest: 1, middle: 3, highest: 4 });
}

#[test]
fn ticks_are_told_from_nanoseconds() {
    // A tick lasts 125/3 nanoseconds.
    let tb = Timebase::new(125, 3);
    let ticks = vec![stamp(Some(24_000_000_000), 24_000_000_240), stamp(None, 24_000_100_000)];
    let r = judge_stamps(&ticks, tb);
    assert_eq!((r.total, r.stamped, r.cut_short), (2, 1, 0));
    let f = r.found.unwrap();
    assert_eq!(f.unit, StampUnit::Ticks);
    assert_eq!(f.ticks, IntSpread { lowest: 240, middle: 240, highest: 240 });
    assert_eq!(f.nanos.lowest, 1_000_000_010_000 - 24_000_000_000);
    assert_eq!(r.count_line(), "樣本數 2，帶 SCM_TIMESTAMP_MONOTONIC 的 1，MSG_CTRUNC 的 0");
    assert_eq!(r.verdict_line(), "判讀：核心值為 mach tick，同基準、同單位");

    let nanos = vec![stamp(Some(1_000_000_000_000), 24_000_000_240)];
    let f = judge_stamps(&nanos, tb).found.unwrap();
    assert_eq!(f.unit, StampUnit::Nanos);
    assert_eq!(f.nanos, IntSpread { lowest: 10_000, middle: 10_000, highest: 10_000 });
}

#[test]
fn one_to_one_ticks_are_nanoseconds_too() {
    let tb = Timebase::new(1, 1);
    let f = judge_stamps(&vec![stamp(Some(100), 150)], tb).found.unwrap();
    assert_eq!(f.unit, StampUnit::Either);
    assert_eq!(f.unit.text(), "tick 即奈秒，兩個假設等價；同基準成立");
}

#[test]
fn a_stamp_after_the_reading_makes_no_sense() {
    let tb = Timebase::new(1, 1);
    let s = vec![stamp(Some(200), 150), Stamp { kernel: Some(1), user: 2, cut_short: true }];
    let r = judge_stamps(&s, tb);
    assert_eq!(r.cut_short, 1);
    assert_eq!(r.found.unwrap().unit, StampUnit::Unclear);
    // Ten milliseconds is still plausible, more is not.
    let at_most = judge_stamps(&vec![stamp(Some(0), 10_000_000)], tb).found.unwrap();
    assert_eq!(at_most.unit, StampUnit::Either);
    let over = judge_stamps(&vec![stamp(Some(0), 10_000_001)], tb).found.unwrap();
    assert_eq!(over.unit, StampUnit::Unclear);
}

#[test]
fn no_stamp_at_all_is_said() {
    let r = judge_stamps(&vec![stamp(None, 5)], Timebase::new(1, 1));
    assert_eq!(r.found, None);
    assert_eq!(r.verdict_line(), "結論：cmsg 沒有出現，這條路徑拿不到核心時間戳。");
}

#[test]
fn a_stamp_ahead_by_a_buffer_is_the_presentation() {
    // 480 frames at 48 kHz last ten milliseconds.
    let mut rows = vec![row(-1, 0), row(-1, 0), row(-1, 0)];
    rows.extend([row(11_000_000, 10_000_000), row(11_400_000, 10_000_020)]);
    let f = judge_callbacks(&rows, 48_000).unwrap();
    assert_eq!(f.buffer_ns, 10_000_000);
    assert_eq!(f.clock, CallbackClock::Presentation);
    assert_eq!(f.ahead, IntSpread { lowest: 11_000_000, middle: 11_400_000, highest: 11_400_000 });
    assert_eq!(f.playback.middle, 1_000);
    assert_eq!(f.jitter_ns, 20);
    assert!(f.steady);
    assert!(f.clock.text("1.14").starts_with("判讀：callback 穩定領先「現在」約 1.14 個緩衝區"));
    assert!(jitter_line(f.steady, "0.0").ends_with("不是排程時刻。"));
}

#[test]
fn a_stamp_close_to_now_is_the_call() {
    let rows = vec![row(0, 0), row(0, 0), row(0, 0), row(-5, 0), row(2_499_999, 50_000)];
    let f = judge_callbacks(&rows, 48_000).unwrap();
    assert_eq!(f.clock, CallbackClock::Call);
    assert!(!f.steady);
    assert_eq!(jitter_line(f.steady, "50.0"), "附註：callback 間隔抖動 50.0 µs，帶有排程抖動。");

    let rows = vec![row(0, 0), row(0, 0), row(0, 0), row(-5, 0), row(2_500_000, 0)];
    assert_eq!(judge_callbacks(&rows, 48_000).unwrap().clock, CallbackClock::Unclear);
}

#[test]
fn too_few_callbacks_are_not_judged() {
    let rows = vec![row(0, 0); 4];
    assert_eq!(judge_callbacks(&rows, 48_000), None);
}
