//! The audio output: the device's latency, and what its callbacks tell afterwards.

use crate::beat::audio::bit;
use crate::decimal::{decimal, push_decimal, push_signed, signed_decimal};
use crate::order::{ascending_ints, sorted_ints};
use vstd::prelude::*;
use vstd::string::*;

verus! {

/// What a device adds between a callback's time stamp and the speaker, in frames. The buffer
/// itself is in the time stamp already.
#[derive(Clone, Copy, Debug, PartialEq, Eq, Structural)]
pub struct Latency {
    pub device_frames: u32,
    pub stream_frames: u32,
    pub safety_frames: u32,
}

impl Default for Latency {
    fn default() -> (l: Latency)
        ensures
            l == (Latency { device_frames: 0, stream_frames: 0, safety_frames: 0 }),
    {
        Latency { device_frames: 0, stream_frames: 0, safety_frames: 0 }
    }
}

impl Latency {
    pub fn total_frames(&self) -> (n: u32)
        requires
            self.device_frames + self.stream_frames + self.safety_frames <= u32::MAX,
        ensures
            n == self.device_frames + self.stream_frames + self.safety_frames,
    {
        self.device_frames + self.stream_frames + self.safety_frames
    }
}

/// One callback.
#[derive(Clone, Copy, Debug, PartialEq, Eq, Structural)]
pub struct Row {
    /// Its time stamp in nanoseconds, without the device's latency.
    pub callback_ns: u64,
    pub frames: u32,
    /// How far the time stamp was ahead when the callback came.
    pub lead_ns: i64,
    /// Bit `k` is set where tick `k` began in the buffer.
    pub onsets: u32,
}

/// The leads of the first `n` callbacks but the first three, which come while the stream warms
/// up.
pub open spec fn leads_of(rows: Seq<Row>, n: nat) -> Seq<i128>
    decreases n,
{
    if n <= 3 {
        Seq::empty()
    } else {
        leads_of(rows, (n - 1) as nat).push(rows[n - 1].lead_ns as i128)
    }
}

/// The number at a place of a list, or zero beyond its end.
pub open spec fn at_or_zero(v: Seq<i128>, i: int) -> i128 {
    if 0 <= i < v.len() {
        v[i]
    } else {
        0
    }
}

/// The most frames of any of the first `n` callbacks.
pub open spec fn most_frames(rows: Seq<Row>, n: nat) -> u32
    decreases n,
{
    if n == 0 {
        0
    } else {
        let front = most_frames(rows, (n - 1) as nat);
        if rows[n - 1].frames > front {
            rows[n - 1].frames
        } else {
            front
        }
    }
}

/// What the callbacks of a stream come to.
#[derive(Clone, Copy, Debug, PartialEq, Eq, Structural)]
pub struct CallbackStats {
    pub frames: u32,
    pub lead_middle_ns: i128,
    pub lead_lowest_ns: i128,
    pub lead_highest_ns: i128,
}

/// Sums the callbacks up, where there were any.
pub fn callback_stats(rows: &Vec<Row>) -> (s: Option<CallbackStats>)
    ensures
        s is None <==> rows@.len() == 0,
        s is Some ==> {
            let v = ascending_ints(leads_of(rows@, rows@.len()));
            &&& s->0.frames == most_frames(rows@, rows@.len())
            &&& s->0.lead_middle_ns == at_or_zero(v, v.len() as int / 2)
            &&& s->0.lead_lowest_ns == at_or_zero(v, 0)
            &&& s->0.lead_highest_ns == at_or_zero(v, v.len() - 1)
        },
{
    if rows.len() == 0 {
        return None;
    }
    let mut frames: u32 = 0;
    let mut leads: Vec<i128> = Vec::new();
    let mut i: usize = 0;
    while i < rows.len()
        invariant
            i <= rows@.len(),
            frames == most_frames(rows@, i as nat),
            leads@ == leads_of(rows@, i as nat),
        decreases rows@.len() - i,
    {
        let r: Row = rows[i];
        if r.frames > frames {
            frames = r.frames;
        }
        if i >= 3 {
            leads.push(r.lead_ns as i128);
        }
        assert(leads@ =~= leads_of(rows@, (i + 1) as nat));
        i = i + 1;
    }
    let v: Vec<i128> = sorted_ints(&leads);
    let n: usize = v.len();
    if n == 0 {
        return Some(
            CallbackStats { frames, lead_middle_ns: 0, lead_lowest_ns: 0, lead_highest_ns: 0 },
        );
    }
    Some(
        CallbackStats {
            frames,
            lead_middle_ns: v[n / 2],
            lead_lowest_ns: v[0],
            lead_highest_ns: v[n - 1],
        },
    )
}

/// The first callback in whose buffer tick `k` began.
pub fn row_of_tick(rows: &Vec<Row>, k: u32) -> (i: Option<usize>)
    requires
        k < 32,
    ensures
        i is Some ==> {
            &&& i->0 < rows@.len()
            &&& bit(rows@[i->0 as int].onsets, k as int)
            &&& forall|j: int| 0 <= j < i->0 ==> !bit((#[trigger] rows@[j]).onsets, k as int)
        },
        i is None ==> forall|j: int|
            0 <= j < rows@.len() ==> !bit((#[trigger] rows@[j]).onsets, k as int),
{
    let mut i: usize = 0;
    while i < rows.len()
        invariant
            k < 32,
            i <= rows@.len(),
            forall|j: int| 0 <= j < i ==> !bit((#[trigger] rows@[j]).onsets, k as int),
        decreases rows@.len() - i,
    {
        if rows[i].onsets & (1u32 << k) != 0 {
            return Some(i);
        }
        i = i + 1;
    }
    None
}

/// How far into a buffer a planned instant falls, in nanoseconds.
pub fn onset_in_buffer_ns(row: &Row, latency_ns: u64, planned_ns: u64) -> (n: i128)
    ensures
        n == planned_ns - (row.callback_ns + latency_ns),
{
    planned_ns as i128 - (row.callback_ns as i128 + latency_ns as i128)
}

/// What is known of an output: its name and rate in words, and its latency with the
/// milliseconds it comes to, or the code with which asking for it failed.
pub struct Output {
    pub device_name: String,
    pub rate_hz: u32,
    pub channels: usize,
    pub latency: Result<LatencyWords, i32>,
}

pub struct LatencyWords {
    pub frames: Latency,
    /// Two decimals.
    pub ms: String,
}

pub open spec fn latency_words(l: Result<LatencyWords, i32>) -> Seq<char> {
    match l {
        Ok(w) => "裝置延遲 "@ + decimal(w.frames.device_frames as nat) + " + 串流 "@ + decimal(
            w.frames.stream_frames as nat,
        ) + " + 安全餘量 "@ + decimal(w.frames.safety_frames as nat) + " 幀 ＝ "@ + w.ms@
            + " ms"@,
        Err(rc) => "裝置延遲查詢失敗（OSStatus "@ + signed_decimal(rc as int) + "），當 0"@,
    }
}

impl Output {
    /// The line on the start of a stream.
    pub fn describe(&self) -> (s: String)
        ensures
            s@ == "聲音："@ + self.device_name@ + "，"@ + decimal(self.rate_hz as nat) + " Hz，"@
                + decimal(self.channels as nat) + " 聲道，"@ + latency_words(self.latency),
    {
        let mut tail: String = String::new();
        match &self.latency {
            Ok(w) => {
                tail = "裝置延遲 ".to_owned();
                push_decimal(&mut tail, w.frames.device_frames as u128);
                tail.append(" + 串流 ");
                push_decimal(&mut tail, w.frames.stream_frames as u128);
                tail.append(" + 安全餘量 ");
                push_decimal(&mut tail, w.frames.safety_frames as u128);
                tail.append(" 幀 ＝ ");
                tail.append(w.ms.as_str());
                tail.append(" ms");
            },
            Err(rc) => {
                tail = "裝置延遲查詢失敗（OSStatus ".to_owned();
                push_signed(&mut tail, *rc as i128);
                tail.append("），當 0");
            },
        }
        let mut s: String = "聲音：".to_owned();
        s.append(self.device_name.as_str());
        s.append("，");
        push_decimal(&mut s, self.rate_hz as u128);
        s.append(" Hz，");
        push_decimal(&mut s, self.channels as u128);
        s.append(" 聲道，");
        s.append(tail.as_str());
        s
    }
}

/// The figures of the report, written out.
pub struct ReportFigures {
    /// A buffer in milliseconds, two decimals.
    pub buffer_ms: String,
    pub lead_middle: String,
    pub lead_lowest: String,
    pub lead_highest: String,
    /// Of each tick that began in a buffer: the frame in it, and how late in microseconds.
    pub ticks: Vec<Option<TickFigures>>,
}

pub struct TickFigures {
    pub index: String,
    pub late_us: String,
}

/// The part on each tick, as far as `n`.
pub open spec fn tick_words(ticks: Seq<Option<TickFigures>>, n: nat) -> Seq<char>
    decreases n,
{
    if n == 0 {
        Seq::empty()
    } else {
        let k = n - 1;
        tick_words(ticks, k as nat) + "；第 "@ + decimal(k as nat) + match ticks[k] {
            Some(t) => " 拍在緩衝區第 "@ + t.index@ + " 個取樣點，晚 "@ + t.late_us@ + " µs"@,
            None => " 拍沒排到（串流開太晚或回呼沒跑）"@,
        }
    }
}

pub open spec fn report_words(count: nat, frames: u32, figures: ReportFigures) -> Seq<char> {
    if count == 0 {
        "聲音：沒有任何回呼"@
    } else {
        "聲音："@ + decimal(count) + " 次回呼，每次 "@ + decimal(frames as nat) + " 幀（"@
            + figures.buffer_ms@ + " ms），callback 領先現在 中位 "@ + figures.lead_middle@
            + " ms（"@ + figures.lead_lowest@ + "–"@ + figures.lead_highest@ + "）"@
            + tick_words(figures.ticks@, figures.ticks@.len())
    }
}

/// The report on a stream that has ended.
pub fn report(rows: &Vec<Row>, figures: &ReportFigures) -> (s: String)
    ensures
        s@ == report_words(rows@.len(), most_frames(rows@, rows@.len()), *figures),
{
    let stats: CallbackStats = match callback_stats(rows) {
        None => {
            return "聲音：沒有任何回呼".to_owned();
        },
        Some(stats) => stats,
    };
    let mut s: String = "聲音：".to_owned();
    push_decimal(&mut s, rows.len() as u128);
    s.append(" 次回呼，每次 ");
    push_decimal(&mut s, stats.frames as u128);
    s.append(" 幀（");
    s.append(figures.buffer_ms.as_str());
    s.append(" ms），callback 領先現在 中位 ");
    s.append(figures.lead_middle.as_str());
    s.append(" ms（");
    s.append(figures.lead_lowest.as_str());
    s.append("–");
    s.append(figures.lead_highest.as_str());
    s.append("）");
    let ghost head = s@;
    assert(s@ =~= head + tick_words(figures.ticks@, 0));
    let mut k: usize = 0;
    while k < figures.ticks.len()
        invariant
            k <= figures.ticks@.len(),
            s@ == head + tick_words(figures.ticks@, k as nat),
        decreases figures.ticks@.len() - k,
    {
        s.append("；第 ");
        push_decimal(&mut s, k as u128);
        match &figures.ticks[k] {
            Some(t) => {
                s.append(" 拍在緩衝區第 ");
                s.append(t.index.as_str());
                s.append(" 個取樣點，晚 ");
                s.append(t.late_us.as_str());
                s.append(" µs");
            },
            None => s.append(" 拍沒排到（串流開太晚或回呼沒跑）"),
        }
        assert(s@ =~= head + tick_words(figures.ticks@, (k + 1) as nat));
        k = k + 1;
    }
    s
}

/// The leads are those of all callbacks but the first three, in order.
pub proof fn leads_are_of_all_but_the_first_three(rows: Seq<Row>, n: nat)
    requires
        n <= rows.len(),
    ensures
        leads_of(rows, n).len() == (if n <= 3 {
            0
        } else {
            n - 3
        }),
        forall|i: int| 3 <= i < n ==> #[trigger] rows[i].lead_ns == leads_of(rows, n)[i - 3],
    decreases n,
{
    if n > 3 {
        leads_are_of_all_but_the_first_three(rows, (n - 1) as nat);
    }
}

/// No callback has more frames than the most, and one has as many.
pub proof fn no_callback_has_more_than_the_most(rows: Seq<Row>, n: nat)
    requires
        n <= rows.len(),
    ensures
        forall|i: int| 0 <= i < n ==> (#[trigger] rows[i]).frames <= most_frames(rows, n),
        n > 0 ==> exists|i: int| 0 <= i < n && (#[trigger] rows[i]).frames == most_frames(rows, n),
        n == 0 ==> most_frames(rows, n) == 0,
    decreases n,
{
    if n > 0 {
        let less = (n - 1) as nat;
        no_callback_has_more_than_the_most(rows, less);
        if rows[n - 1].frames >= most_frames(rows, less) {
            assert(rows[n - 1].frames == most_frames(rows, n));
        } else {
            let i = choose|i: int|
                0 <= i < less && (#[trigger] rows[i]).frames == most_frames(rows, less);
            assert(rows[i].frames == most_frames(rows, n));
        }
    }
}

/// Beyond its end a list reads zero.
pub proof fn beyond_its_end_a_list_reads_zero(v: Seq<i128>, i: int)
    ensures
        0 <= i < v.len() ==> at_or_zero(v, i) == v[i],
        i < 0 || i >= v.len() ==> at_or_zero(v, i) == 0,
{
}

/// Without a callback there is nothing to tell but that.
pub proof fn without_callbacks_no_figures_are_told(
    frames: u32,
    figures: ReportFigures,
    other_frames: u32,
    others: ReportFigures,
)
    ensures
        report_words(0, frames, figures) == report_words(0, other_frames, others),
{
}

/// A tick falls as far into a buffer as it is planned after the buffer begins to sound, and the
/// buffer begins to sound the latency after its callback.
pub proof fn an_onset_counts_from_where_the_buffer_sounds(
    row: Row,
    latency_ns: u64,
    planned_ns: u64,
    n: i128,
)
    requires
        call_ensures(onset_in_buffer_ns, (&row, latency_ns, planned_ns), n),
    ensures
        row.callback_ns + latency_ns + n == planned_ns,
{
}

/// Each part of a latency counts once.
pub proof fn each_part_of_a_latency_counts(l: Latency, n: u32)
    requires
        call_ensures(Latency::total_frames, (&l,), n),
    ensures
        n - l.device_frames - l.stream_frames == l.safety_frames,
{
}

/// Each tick is told behind those before it, with its number.
pub proof fn ticks_are_told_one_by_one(ticks: Seq<Option<TickFigures>>, n: nat)
    requires
        n < ticks.len(),
    ensures
        tick_words(ticks, 0).len() == 0,
        ({
            let front = tick_words(ticks, n);
            let told = "；第 "@ + decimal(n);
            let more = tick_words(ticks, n + 1);
            &&& more.len() > front.len() + told.len()
            &&& more.subrange(0, front.len() as int) == front
            &&& more.subrange(front.len() as int, (front + told).len() as int) == told
        }),
{
    let front = tick_words(ticks, n);
    let told = "；第 "@ + decimal(n);
    let more = tick_words(ticks, n + 1);
    reveal_strlit(" 拍沒排到（串流開太晚或回呼沒跑）");
    reveal_strlit(" 拍在緩衝區第 ");
    reveal_strlit(" 個取樣點，晚 ");
    reveal_strlit(" µs");
    assert(more.subrange(0, front.len() as int) =~= front);
    assert(more.subrange(front.len() as int, (front + told).len() as int) =~= told);
}

/// Leads are told where there was a callback, from the lowest to the highest of the list in
/// order.
pub proof fn leads_are_told_in_order(rows: Vec<Row>, s: Option<CallbackStats>)
    requires
        call_ensures(callback_stats, (&rows,), s),
        leads_of(rows@, rows@.len()).len() > 0,
    ensures
        s is None <==> rows@.len() == 0,
        s matches Some(x) ==> {
            let v = ascending_ints(leads_of(rows@, rows@.len()));
            &&& x.lead_lowest_ns == v.first()
            &&& x.lead_highest_ns == v.last()
            &&& v.len() % 2 == 1 ==> x.lead_middle_ns == v[(v.len() - 1) / 2]
        },
{
    crate::order::the_range_is_read_from_the_list_in_order(leads_of(rows@, rows@.len()));
}

} // verus!
