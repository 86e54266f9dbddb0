//! When frames came on screen, and what the audio callbacks tell.

use kairos::duration::Duration;
use kairos::float::Float64;
use kairos::order::{range, MiddleInt, Range};
use kairos::present::{summarize, CostFigures, PresentFigures, PresentRecord, PresentSummary};
use kairos::sound::{
    callback_stats, onset_in_buffer_ns, report, row_of_tick, CallbackStats, Latency, LatencyWords,
    Output, ReportFigures, Row, TickFigures,
};
use kairos::target::Middle;
use kairos::time::{HostTime, Timebase};

fn tb() -> Timebase {
    Timebase::new(1, 1)
}

fn float(x: f64) -> Float64 {
    Float64 { bits: x.to_bits() }
}

fn middle_ms(m: MiddleInt) -> f64 {
    match m {
        MiddleInt::One(a) => a as f64 / 1e6,
        MiddleInt::Two(a, b) => (a as f64 / 1e6 + b as f64 / 1e6) / 2.0,
    }
}

fn figures(s: &PresentSummary) -> PresentFigures {
    let (middle, lowest, highest) = match s.offset_ns {
        Some(r) => (middle_ms(r.middle), r.lowest as f64 / 1e6, r.highest as f64 / 1e6),
        None => (0.0, 0.0, 0.0),
    };
    PresentFigures {
        middle: format!("{middle:+.2}"),
        lowest: format!("{lowest:+.2}"),
        highest: format!("{highest:+.2}"),
        cost: s.cost_ms.map(|(m, most)| CostFigures {
            middle: match m {
                Middle::One(x) => format!("{:.3}", f64::from_bits(x.bits)),
                _ => String::new(),
            },
            most: format!("{:.3}", f64::from_bits(most.bits)),
        }),
        nearest: s
            .nearest_presented_ns
            .iter()
            .map(|d| d.map(|ns| format!("{:+.1}", ns as f64 / 1e6)))
            .collect(),
    }
}

#[test]
fn summary_reports_offsets_skips_and_nearest_frames() {
    let t0 = HostTime::from_nanos(1_000_000_000_000, tb());
    let after = |m: u64| t0.plus(Duration::from_millis(m), tb());
    let records = vec![
        PresentRecord { frame: 0, target: t0, presented: Some(t0) },
        PresentRecord { frame: 1, target: after(16), presented: Some(after(33)) },
        PresentRecord { frame: 2, target: after(33), presented: None },
        PresentRecord { frame: 3, target: after(50), presented: Some(after(50)) },
    ];
    let costs = vec![float(0.2), float(0.1), float(0.3)];
    let s = summarize(&records, 1, &costs, &vec![after(40), after(500)], tb());
    assert_eq!(s.reported, 3);
    assert_eq!(s.skipped, 2);
    let r = s.offset_ns.unwrap();
    assert_eq!(
        (middle_ms(r.middle), r.lowest as f64 / 1e6, r.highest as f64 / 1e6),
        (0.0, 0.0, 17.0)
    );
    assert_eq!(s.nearest_presented_ns, vec![Some(-7_000_000), Some(-450_000_000)]);
    assert_eq!(s.cost_ms, Some((Middle::One(float(0.2)), float(0.3))));
    let (first, second) = s.lines(&figures(&s));
    assert!(
        first.contains("3 格有回報") && first.contains("跳過 2 格"),
        "{first}"
    );
    assert!(second.contains("第 0 拍最近實際上屏差 -7.0 ms"), "{second}");
    assert_eq!(
        first,
        "節拍上屏：3 格有回報，實際上屏 − 預測 中位 +0.00 ms（+0.00–+17.00），跳過 2 格；Metal 每格 中位 0.200 ms（最大 0.300）"
    );

    let empty = summarize(&vec![], 0, &vec![], &vec![t0], tb());
    assert_eq!(empty.offset_ns, None);
    assert_eq!(empty.nearest_presented_ns, vec![None]);
    let (first, second) = empty.lines(&figures(&empty));
    assert!(first.contains("沒有任何一格"));
    assert_eq!(second, "節拍上屏；第 0 拍沒有上屏紀錄");
}

#[test]
fn ranges_have_their_ends_and_the_middle() {
    assert_eq!(range(&vec![]), None);
    assert_eq!(
        range(&vec![5, -3, 9]),
        Some(Range { middle: MiddleInt::One(5), lowest: -3, highest: 9 })
    );
    assert_eq!(
        range(&vec![4, 1, 3, 2]),
        Some(Range { middle: MiddleInt::Two(2, 3), lowest: 1, highest: 4 })
    );
}

fn row(callback_ns: u64, frames: u32, lead_ns: i64, onsets: u32) -> Row {
    Row { callback_ns, frames, lead_ns, onsets }
}

#[test]
fn callbacks_are_summed_up_without_the_first() {
    let rows = vec![
        row(0, 512, 999, 0),
        row(1, 512, 999, 0),
        row(2, 1024, 999, 0b1),
        row(3, 512, 30, 0),
        row(4, 512, 10, 0b110),
        row(5, 512, 20, 0b10),
    ];
    assert_eq!(
        callback_stats(&rows),
        Some(CallbackStats {
            frames: 1024,
            lead_middle_ns: 20,
            lead_lowest_ns: 10,
            lead_highest_ns: 30,
        })
    );
    assert_eq!(callback_stats(&vec![]), None);
    assert_eq!(
        callback_stats(&vec![row(0, 512, 7, 0)]),
        Some(CallbackStats {
            frames: 512,
            lead_middle_ns: 0,
            lead_lowest_ns: 0,
            lead_highest_ns: 0,
        })
    );
    assert_eq!(row_of_tick(&rows, 0), Some(2));
    assert_eq!(row_of_tick(&rows, 1), Some(4));
    assert_eq!(row_of_tick(&rows, 31), None);
    assert_eq!(onset_in_buffer_ns(&rows[2], 100, 1_000), 898);
    assert_eq!(onset_in_buffer_ns(&rows[2], 100, 0), -102);
}

#[test]
fn lines_on_the_output() {
    let latency = Latency { device_frames: 100, stream_frames: 20, safety_frames: 3 };
    assert_eq!(latency.total_frames(), 123);
    assert_eq!(Latency::default().total_frames(), 0);
    let mut o = Output {
        device_name: "Speakers".into(),
        rate_hz: 48_000,
        channels: 2,
        latency: Ok(LatencyWords { frames: latency, ms: "2.56".into() }),
    };
    assert_eq!(
        o.describe(),
        "聲音：Speakers，48000 Hz，2 聲道，裝置延遲 100 + 串流 20 + 安全餘量 3 幀 ＝ 2.56 ms"
    );
    o.latency = Err(-50);
    assert_eq!(
        o.describe(),
        "聲音：Speakers，48000 Hz，2 聲道，裝置延遲查詢失敗（OSStatus -50），當 0"
    );
}

#[test]
fn a_report_on_the_callbacks() {
    let f = ReportFigures {
        buffer_ms: "10.67".into(),
        lead_middle: "12.10".into(),
        lead_lowest: "11.90".into(),
        lead_highest: "12.40".into(),
        ticks: vec![
            Some(TickFigures { index: "480".into(), late_us: "3.2".into() }),
            None,
        ],
    };
    assert_eq!(report(&vec![], &f), "聲音：沒有任何回呼");
    assert_eq!(
        report(&vec![row(0, 512, 7, 1)], &f),
        "聲音：1 次回呼，每次 512 幀（10.67 ms），callback 領先現在 中位 12.10 ms（11.90–12.40）；第 0 拍在緩衝區第 480 個取樣點，晚 3.2 µs；第 1 拍沒排到（串流開太晚或回呼沒跑）"
    );
}
