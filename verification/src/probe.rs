//! Probing a machine: in which unit the kernel stamps arrivals, and what the time stamp of an
//! audio callback means.

use crate::arith::{fits_i128, two64};
use crate::decimal::{decimal, magnitude, push_decimal};
use crate::order::{ascending_ints, sorted_ints};
use crate::time::Timebase;
use vstd::prelude::*;
use vstd::string::*;

verus! {

/// The smallest, the middle and the largest of a list; of two in the middle, the larger.
#[derive(Clone, Copy, Debug, PartialEq, Eq, Structural)]
pub struct IntSpread {
    pub lowest: i128,
    pub middle: i128,
    pub highest: i128,
}

pub open spec fn int_spread_of(s: Seq<i128>) -> IntSpread {
    let v = ascending_ints(s);
    IntSpread { lowest: v[0], middle: v[v.len() as int / 2], highest: v[v.len() - 1] }
}

/// The spread of a list that holds something.
pub fn int_spread(xs: &Vec<i128>) -> (r: IntSpread)
    requires
        xs@.len() > 0,
    ensures
        r == int_spread_of(xs@),
{
    let v: Vec<i128> = sorted_ints(xs);
    let n: usize = v.len();
    IntSpread { lowest: v[0], middle: v[n / 2], highest: v[n - 1] }
}

/// One reception: the kernel's stamp where it came, the clock read right after, and whether
/// the kernel had no room for all it wanted to say.
#[derive(Clone, Copy, Debug, PartialEq, Eq, Structural)]
pub struct Stamp {
    pub kernel: Option<u64>,
    pub user: u64,
    pub cut_short: bool,
}

/// How much later the reading is than the stamp, both taken as ticks, wherever a stamp came.
pub open spec fn tick_gaps(s: Seq<Stamp>) -> Seq<i128>
    decreases s.len(),
{
    if s.len() == 0 {
        Seq::empty()
    } else {
        match s.last().kernel {
            Some(k) => tick_gaps(s.drop_last()).push((s.last().user - k) as i128),
            None => tick_gaps(s.drop_last()),
        }
    }
}

/// Ticks as nanoseconds, cut to whole ones and to sixty-four bits.
pub open spec fn whole_nanos(ticks: int, tb: Timebase) -> int {
    ticks * tb.numer_spec() / (tb.denom_spec() as int) % two64()
}

/// How much later the reading is than the stamp, the stamp taken as nanoseconds.
pub open spec fn nano_gaps(s: Seq<Stamp>, tb: Timebase) -> Seq<i128>
    decreases s.len(),
{
    if s.len() == 0 {
        Seq::empty()
    } else {
        match s.last().kernel {
            Some(k) => nano_gaps(s.drop_last(), tb).push(
                (whole_nanos(s.last().user as int, tb) - k) as i128,
            ),
            None => nano_gaps(s.drop_last(), tb),
        }
    }
}

/// The receptions that the kernel had no room for.
pub open spec fn cut_short_count(s: Seq<Stamp>) -> nat
    decreases s.len(),
{
    if s.len() == 0 {
        0
    } else {
        cut_short_count(s.drop_last()) + if s.last().cut_short {
            1nat
        } else {
            0
        }
    }
}

/// Whether no gap is negative and none is over a bound: a reading right after an arrival is
/// never before it, and never long after.
pub open spec fn plausible(gaps: Seq<i128>, most: int) -> bool {
    forall|i: int| 0 <= i < gaps.len() ==> 0 <= #[trigger] gaps[i] <= most
}

/// Ten milliseconds, in nanoseconds.
pub const PLAUSIBLE_GAP_NS: u64 = 10_000_000;

/// Ten milliseconds in whole ticks.
pub open spec fn plausible_ticks(tb: Timebase) -> int {
    PLAUSIBLE_GAP_NS * tb.denom_spec() / (tb.numer_spec() as int)
}

/// What the stamps are counted in.
#[derive(Clone, Copy, Debug, PartialEq, Eq, Structural)]
pub enum StampUnit {
    /// A tick is a nanosecond, so both readings come to the same.
    Either,
    Ticks,
    Nanos,
    /// Neither makes sense.
    Unclear,
}

/// The unit that the gaps speak for.
pub open spec fn unit_of(s: Seq<Stamp>, tb: Timebase) -> StampUnit {
    let as_ticks = plausible(tick_gaps(s), plausible_ticks(tb));
    let as_nanos = plausible(nano_gaps(s, tb), PLAUSIBLE_GAP_NS as int);
    if as_ticks && as_nanos && tb.numer_spec() == tb.denom_spec() {
        StampUnit::Either
    } else if as_ticks {
        StampUnit::Ticks
    } else if as_nanos {
        StampUnit::Nanos
    } else {
        StampUnit::Unclear
    }
}

impl StampUnit {
    pub open spec fn words(self) -> Seq<char> {
        match self {
            StampUnit::Either => "tick 即奈秒，兩個假設等價；同基準成立"@,
            StampUnit::Ticks => "核心值為 mach tick，同基準、同單位"@,
            StampUnit::Nanos => "核心值為奈秒，需經 timebase 換算後才與 mach tick 同基準"@,
            StampUnit::Unclear => "兩個假設都不合理，需人工檢視上面的數字"@,
        }
    }

    pub fn text(self) -> (s: &'static str)
        ensures
            s@ == self.words(),
    {
        match self {
            StampUnit::Either => "tick 即奈秒，兩個假設等價；同基準成立",
            StampUnit::Ticks => "核心值為 mach tick，同基準、同單位",
            StampUnit::Nanos => "核心值為奈秒，需經 timebase 換算後才與 mach tick 同基準",
            StampUnit::Unclear => "兩個假設都不合理，需人工檢視上面的數字",
        }
    }
}

/// What the stamps that came tell.
#[derive(Clone, Copy, Debug, PartialEq, Eq, Structural)]
pub struct StampFindings {
    pub ticks: IntSpread,
    pub nanos: IntSpread,
    pub unit: StampUnit,
}

/// What a series of receptions came to.
#[derive(Clone, Copy, Debug, PartialEq, Eq, Structural)]
pub struct StampReport {
    pub total: usize,
    pub stamped: usize,
    pub cut_short: usize,
    /// Nothing where no stamp came at all.
    pub found: Option<StampFindings>,
}

/// The number of gaps is the number of stamps.
proof fn lemma_gap_counts(s: Seq<Stamp>, tb: Timebase)
    ensures
        tick_gaps(s).len() == nano_gaps(s, tb).len(),
        tick_gaps(s).len() <= s.len(),
        cut_short_count(s) <= s.len(),
    decreases s.len(),
{
    if s.len() > 0 {
        lemma_gap_counts(s.drop_last(), tb);
    }
}

fn is_plausible(gaps: &Vec<i128>, most: i128) -> (b: bool)
    ensures
        b == plausible(gaps@, most as int),
{
    let mut i: usize = 0;
    while i < gaps.len()
        invariant
            i <= gaps@.len(),
            forall|j: int| 0 <= j < i ==> 0 <= #[trigger] gaps@[j] <= most,
        decreases gaps@.len() - i,
    {
        if gaps[i] < 0 || gaps[i] > most {
            return false;
        }
        i = i + 1;
    }
    true
}

/// Judges a series of receptions.
pub fn judge_stamps(stamps: &Vec<Stamp>, tb: Timebase) -> (r: StampReport)
    ensures
        r.total == stamps@.len(),
        r.stamped == tick_gaps(stamps@).len(),
        r.cut_short == cut_short_count(stamps@),
        r.found == (if tick_gaps(stamps@).len() == 0 {
            None
        } else {
            Some(
                StampFindings {
                    ticks: int_spread_of(tick_gaps(stamps@)),
                    nanos: int_spread_of(nano_gaps(stamps@, tb)),
                    unit: unit_of(stamps@, tb),
                },
            )
        }),
{
    let numer: u32 = tb.numer();
    let denom: u32 = tb.denom();
    let mut ticks: Vec<i128> = Vec::new();
    let mut nanos: Vec<i128> = Vec::new();
    let mut cut_short: usize = 0;
    let mut i: usize = 0;
    while i < stamps.len()
        invariant
            i <= stamps@.len(),
            numer == tb.numer_spec(),
            denom == tb.denom_spec(),
            denom > 0,
            ticks@ == tick_gaps(stamps@.subrange(0, i as int)),
            nanos@ == nano_gaps(stamps@.subrange(0, i as int), tb),
            cut_short == cut_short_count(stamps@.subrange(0, i as int)),
        decreases stamps@.len() - i,
    {
        let ghost longer = stamps@.subrange(0, i + 1);
        proof {
            assert(longer.drop_last() =~= stamps@.subrange(0, i as int));
            assert(longer.last() == stamps@[i as int]);
            lemma_gap_counts(longer, tb);
        }
        let s: Stamp = stamps[i];
        match s.kernel {
            Some(k) => {
                proof {
                    crate::arith::lemma_product_bound(
                        s.user as int,
                        u64::MAX as int,
                        numer as int,
                        u32::MAX as int,
                    );
                }
                let whole: u64 = crate::arith::low64(s.user as u128 * numer as u128 / denom as u128);
                ticks.push(s.user as i128 - k as i128);
                nanos.push(whole as i128 - k as i128);
            },
            None => {},
        }
        if s.cut_short {
            cut_short = cut_short + 1;
        }
        i = i + 1;
    }
    proof {
        assert(stamps@.subrange(0, i as int) =~= stamps@);
        lemma_gap_counts(stamps@, tb);
    }
    let found: Option<StampFindings> = if ticks.len() == 0 {
        None
    } else {
        proof {
            crate::arith::lemma_product_bound(
                PLAUSIBLE_GAP_NS as int,
                PLAUSIBLE_GAP_NS as int,
                denom as int,
                u32::MAX as int,
            );
            assert(plausible_ticks(tb) <= PLAUSIBLE_GAP_NS * denom) by (nonlinear_arith)
                requires
                    plausible_ticks(tb) == PLAUSIBLE_GAP_NS * denom / (numer as int),
                    numer > 0,
                    PLAUSIBLE_GAP_NS * denom >= 0,
            ;
        }
        let most: u64 = PLAUSIBLE_GAP_NS * denom as u64 / numer as u64;
        let as_ticks: bool = is_plausible(&ticks, most as i128);
        let as_nanos: bool = is_plausible(&nanos, PLAUSIBLE_GAP_NS as i128);
        let unit: StampUnit = if as_ticks && as_nanos && numer == denom {
            StampUnit::Either
        } else if as_ticks {
            StampUnit::Ticks
        } else if as_nanos {
            StampUnit::Nanos
        } else {
            StampUnit::Unclear
        };
        Some(StampFindings { ticks: int_spread(&ticks), nanos: int_spread(&nanos), unit })
    };
    StampReport { total: stamps.len(), stamped: ticks.len(), cut_short, found }
}

impl StampReport {
    /// How many receptions there were, and how many were stamped or cut short.
    pub fn count_line(&self) -> (s: String)
        ensures
            s@ == "樣本數 "@ + decimal(self.total as nat) + "，帶 SCM_TIMESTAMP_MONOTONIC 的 "@
                + decimal(self.stamped as nat) + "，MSG_CTRUNC 的 "@ + decimal(
                self.cut_short as nat,
            ),
    {
        let mut s: String = "樣本數 ".to_owned();
        push_decimal(&mut s, self.total as u128);
        s.append("，帶 SCM_TIMESTAMP_MONOTONIC 的 ");
        push_decimal(&mut s, self.stamped as u128);
        s.append("，MSG_CTRUNC 的 ");
        push_decimal(&mut s, self.cut_short as u128);
        s
    }

    /// The conclusion.
    pub fn verdict_line(&self) -> (s: String)
        ensures
            s@ == (match self.found {
                None => "結論：cmsg 沒有出現，這條路徑拿不到核心時間戳。"@,
                Some(f) => "判讀："@ + f.unit.words(),
            }),
    {
        match self.found {
            None => "結論：cmsg 沒有出現，這條路徑拿不到核心時間戳。".to_owned(),
            Some(f) => {
                let mut s: String = "判讀：".to_owned();
                s.append(f.unit.text());
                s
            },
        }
    }
}

/// Where every stamp is a tick count read no more than ten milliseconds before, the stamps are
/// taken for ticks, whatever a tick is.
pub proof fn true_ticks_are_recognised(s: Seq<Stamp>, tb: Timebase)
    requires
        forall|i: int|
            0 <= i < s.len() ==> ((#[trigger] s[i]).kernel matches Some(k) ==> 0 <= s[i].user - k
                <= plausible_ticks(tb)),
    ensures
        unit_of(s, tb) == StampUnit::Ticks || unit_of(s, tb) == StampUnit::Either,
{
    lemma_small_gaps(s, plausible_ticks(tb));
}

proof fn lemma_small_gaps(s: Seq<Stamp>, most: int)
    requires
        forall|i: int|
            0 <= i < s.len() ==> ((#[trigger] s[i]).kernel matches Some(k) ==> 0 <= s[i].user - k
                <= most),
    ensures
        plausible(tick_gaps(s), most),
    decreases s.len(),
{
    if s.len() > 0 {
        let front = s.drop_last();
        assert forall|i: int| 0 <= i < front.len() implies ((#[trigger] front[i]).kernel matches Some(
            k,
        ) ==> 0 <= front[i].user - k <= most) by {
            assert(front[i] == s[i]);
        }
        lemma_small_gaps(front, most);
        assert(s[s.len() - 1] == s.last());
    }
}

/// One audio callback, seen from its time stamp.
#[derive(Clone, Copy, Debug, PartialEq, Eq, Structural)]
pub struct CallbackRow {
    /// The stamp minus the clock at its start.
    pub ahead_ns: i128,
    /// The playback stamp minus the callback's.
    pub playback_ns: i128,
    /// The stamp minus that of the callback before.
    pub period_ns: i128,
    pub frames: u32,
}

/// The callbacks that are passed over while the stream warms up.
pub const WARMUP_ROWS: usize = 3;

/// A callback interval that varies less than this comes from the sample clock.
pub const STEADY_JITTER_NS: i128 = 50_000;

/// What the time stamp of a callback means.
#[derive(Clone, Copy, Debug, PartialEq, Eq, Structural)]
pub enum CallbackClock {
    /// When the buffer will be heard, but for the device's latency.
    Presentation,
    /// When the callback was called.
    Call,
    Unclear,
}

/// What a series of callbacks tells.
#[derive(Clone, Copy, Debug, PartialEq, Eq, Structural)]
pub struct CallbackFindings {
    pub frames: u32,
    pub buffer_ns: u128,
    pub ahead: IntSpread,
    pub playback: IntSpread,
    pub period: IntSpread,
    pub clock: CallbackClock,
    pub jitter_ns: i128,
    /// The interval varies too little for a scheduler.
    pub steady: bool,
}

/// The callbacks after the warm-up.
pub open spec fn warm(rows: Seq<CallbackRow>) -> Seq<CallbackRow> {
    rows.skip(WARMUP_ROWS as int)
}

pub open spec fn aheads(rows: Seq<CallbackRow>) -> Seq<i128> {
    rows.map_values(|r: CallbackRow| r.ahead_ns)
}

pub open spec fn playbacks(rows: Seq<CallbackRow>) -> Seq<i128> {
    rows.map_values(|r: CallbackRow| r.playback_ns)
}

pub open spec fn periods(rows: Seq<CallbackRow>) -> Seq<i128> {
    rows.map_values(|r: CallbackRow| r.period_ns)
}

/// How long a buffer of so many frames lasts, in whole nanoseconds.
pub open spec fn buffer_length_ns(frames: u32, rate: u32) -> int {
    frames * 1_000_000_000 / (rate as int)
}

/// A stamp that is always ahead, by more than half a buffer in the middle, is when the buffer
/// will be heard; one that is never off by a quarter of a buffer is when it was asked for.
pub open spec fn clock_of(ahead: IntSpread, buffer_ns: int) -> CallbackClock {
    if ahead.lowest > 0 && 2 * ahead.middle > buffer_ns {
        CallbackClock::Presentation
    } else if crate::arith::abs(ahead.lowest as int) < buffer_ns / 4 && crate::arith::abs(
        ahead.highest as int,
    ) < buffer_ns / 4 {
        CallbackClock::Call
    } else {
        CallbackClock::Unclear
    }
}

/// Judges a series of callbacks at a sample rate; with fewer than two after the warm-up there
/// is nothing to judge.
pub fn judge_callbacks(rows: &Vec<CallbackRow>, rate: u32) -> (f: Option<CallbackFindings>)
    requires
        rate > 0,
        rows@.len() >= WARMUP_ROWS + 2 ==> {
            let p = int_spread_of(periods(warm(rows@)));
            fits_i128(p.highest - p.lowest)
        },
    ensures
        f == (if rows@.len() < WARMUP_ROWS + 2 {
            None
        } else {
            let kept = warm(rows@);
            let period = int_spread_of(periods(kept));
            Some(
                CallbackFindings {
                    frames: kept[0].frames,
                    buffer_ns: buffer_length_ns(kept[0].frames, rate) as u128,
                    ahead: int_spread_of(aheads(kept)),
                    playback: int_spread_of(playbacks(kept)),
                    period,
                    clock: clock_of(
                        int_spread_of(aheads(kept)),
                        buffer_length_ns(kept[0].frames, rate),
                    ),
                    jitter_ns: (period.highest - period.lowest) as i128,
                    steady: period.highest - period.lowest < STEADY_JITTER_NS,
                },
            )
        }),
{
    if rows.len() < WARMUP_ROWS + 2 {
        return None;
    }
    let mut a: Vec<i128> = Vec::new();
    let mut b: Vec<i128> = Vec::new();
    let mut c: Vec<i128> = Vec::new();
    let mut i: usize = WARMUP_ROWS;
    while i < rows.len()
        invariant
            WARMUP_ROWS <= i <= rows@.len(),
            a@ == aheads(rows@.subrange(WARMUP_ROWS as int, i as int)),
            b@ == playbacks(rows@.subrange(WARMUP_ROWS as int, i as int)),
            c@ == periods(rows@.subrange(WARMUP_ROWS as int, i as int)),
        decreases rows@.len() - i,
    {
        let r: CallbackRow = rows[i];
        a.push(r.ahead_ns);
        b.push(r.playback_ns);
        c.push(r.period_ns);
        proof {
            let shorter = rows@.subrange(WARMUP_ROWS as int, i as int);
            let longer = rows@.subrange(WARMUP_ROWS as int, i + 1);
            assert(longer =~= shorter.push(r));
            assert(a@ =~= aheads(longer));
            assert(b@ =~= playbacks(longer));
            assert(c@ =~= periods(longer));
        }
        i = i + 1;
    }
    proof {
        assert(rows@.subrange(WARMUP_ROWS as int, i as int) =~= warm(rows@));
    }
    let frames: u32 = rows[WARMUP_ROWS].frames;
    let buffer_ns: u64 = frames as u64 * 1_000_000_000 / rate as u64;
    proof {
        assert(0 <= buffer_length_ns(frames, rate) <= frames * 1_000_000_000) by (nonlinear_arith)
            requires
                buffer_length_ns(frames, rate) == frames * 1_000_000_000 / (rate as int),
                rate > 0,
                frames >= 0,
        ;
    }
    let ahead: IntSpread = int_spread(&a);
    let playback: IntSpread = int_spread(&b);
    let period: IntSpread = int_spread(&c);
    let quarter: u128 = (buffer_ns / 4) as u128;
    let clock: CallbackClock = if ahead.lowest > 0 && ahead.middle > (buffer_ns / 2) as i128 {
        CallbackClock::Presentation
    } else if magnitude(ahead.lowest) < quarter && magnitude(ahead.highest) < quarter {
        CallbackClock::Call
    } else {
        CallbackClock::Unclear
    };
    let jitter_ns: i128 = period.highest - period.lowest;
    Some(
        CallbackFindings {
            frames,
            buffer_ns: buffer_ns as u128,
            ahead,
            playback,
            period,
            clock,
            jitter_ns,
            steady: jitter_ns < STEADY_JITTER_NS,
        },
    )
}

impl CallbackClock {
    pub open spec fn words(self, ratio: Seq<char>) -> Seq<char> {
        match self {
            CallbackClock::Presentation => "判讀：callback 穩定領先「現在」約 "@ + ratio
                + " 個緩衝區，mHostTime 是呈現時刻（尚未含裝置延遲）；\n　　　cpal 的時間基準可用，裝置延遲另查 kAudioDevicePropertyLatency 等屬性補上。"@,
            CallbackClock::Call =>
                "判讀：callback 與「現在」幾乎重合，mHostTime 是回呼被叫的時刻；\n　　　cpal 資訊不足以做取樣點等級的排程，改走 coreaudio-rs 直接拿完整 AudioTimeStamp。"@,
            CallbackClock::Unclear => "判讀：模式不在預期的兩種之內，需人工檢視上面的數字。"@,
        }
    }

    /// The conclusion; `ratio` is the middle lead in buffers, as rounded text.
    pub fn text(self, ratio: &str) -> (s: String)
        ensures
            s@ == self.words(ratio@),
    {
        match self {
            CallbackClock::Presentation => {
                let mut s: String = "判讀：callback 穩定領先「現在」約 ".to_owned();
                s.append(ratio);
                s.append(
                    " 個緩衝區，mHostTime 是呈現時刻（尚未含裝置延遲）；\n　　　cpal 的時間基準可用，裝置延遲另查 kAudioDevicePropertyLatency 等屬性補上。",
                );
                s
            },
            CallbackClock::Call =>
                "判讀：callback 與「現在」幾乎重合，mHostTime 是回呼被叫的時刻；\n　　　cpal 資訊不足以做取樣點等級的排程，改走 coreaudio-rs 直接拿完整 AudioTimeStamp。".to_owned(),
            CallbackClock::Unclear => "判讀：模式不在預期的兩種之內，需人工檢視上面的數字。".to_owned(),
        }
    }
}

/// The note on the interval; `jitter_us` is how much it varies, as rounded text.
pub fn jitter_line(steady: bool, jitter_us: &str) -> (s: String)
    ensures
        s@ == "附註：callback 間隔抖動 "@ + jitter_us@ + (if steady {
            " µs，幾乎是取樣時鐘推算出來的，不是排程時刻。"@
        } else {
            " µs，帶有排程抖動。"@
        }),
{
    let mut s: String = "附註：callback 間隔抖動 ".to_owned();
    s.append(jitter_us);
    s.append(
        if steady {
            " µs，幾乎是取樣時鐘推算出來的，不是排程時刻。"
        } else {
            " µs，帶有排程抖動。"
        },
    );
    s
}

/// Gaps are taken stamp by stamp: one without a stamp leaves them as they are, one with a stamp
/// adds how much later the reading is, as ticks and as nanoseconds.
pub proof fn gaps_are_taken_stamp_by_stamp(s: Seq<Stamp>, x: Stamp, tb: Timebase)
    ensures
        x.kernel is None ==> tick_gaps(s.push(x)) == tick_gaps(s) && nano_gaps(s.push(x), tb)
            == nano_gaps(s, tb),
        x.kernel matches Some(k) ==> tick_gaps(s.push(x)) == tick_gaps(s).push(
            (x.user - k) as i128,
        ) && nano_gaps(s.push(x), tb) == nano_gaps(s, tb).push(
            (whole_nanos(x.user as int, tb) - k) as i128,
        ),
        cut_short_count(s.push(x)) == cut_short_count(s) + (if x.cut_short {
            1nat
        } else {
            0nat
        }),
        tick_gaps(Seq::<Stamp>::empty()) == Seq::<i128>::empty(),
        nano_gaps(Seq::<Stamp>::empty(), tb) == Seq::<i128>::empty(),
        cut_short_count(Seq::<Stamp>::empty()) == 0,
{
    assert(s.push(x).drop_last() =~= s);
}

/// Whole nanoseconds are cut, not rounded: as many as are over, and not one more.
pub proof fn whole_nanoseconds_are_cut(ticks: u64, tb: Timebase)
    requires
        tb.denom_spec() > 0,
        ticks * tb.numer_spec() < 0x1_0000_0000_0000_0000 * tb.denom_spec(),
    ensures
        whole_nanos(ticks as int, tb) * tb.denom_spec() <= ticks * tb.numer_spec() < (whole_nanos(
            ticks as int,
            tb,
        ) + 1) * tb.denom_spec(),
{
    let n = ticks * tb.numer_spec();
    let d = tb.denom_spec() as int;
    crate::arith::lemma_product_bound(
        ticks as int,
        u64::MAX as int,
        tb.numer_spec() as int,
        u32::MAX as int,
    );
    vstd::arithmetic::div_mod::lemma_fundamental_div_mod(n, d);
    let q = n / d;
    vstd::arithmetic::mul::lemma_mul_is_commutative(q, d);
    assert(0 <= q < 0x1_0000_0000_0000_0000) by (nonlinear_arith)
        requires
            n == d * q + n % d,
            0 <= n % d < d,
            0 <= n < 0x1_0000_0000_0000_0000 * d,
            d > 0,
    ;
    assert((q + 1) * d == q * d + d) by (nonlinear_arith);
}

/// The stamps are judged by whether the gaps can be: in a unit in which one is negative or over
/// ten milliseconds they are not, and where they can be in neither the unit is unclear.
pub proof fn a_unit_must_make_all_gaps_possible(s: Seq<Stamp>, tb: Timebase)
    ensures
        ({
            let ticks = forall|i: int|
                0 <= i < tick_gaps(s).len() ==> 0 <= #[trigger] tick_gaps(s)[i] <= 10_000_000
                    * tb.denom_spec() / (tb.numer_spec() as int);
            let nanos = forall|i: int|
                0 <= i < nano_gaps(s, tb).len() ==> 0 <= #[trigger] nano_gaps(s, tb)[i] <= 10_000_000;
            &&& unit_of(s, tb) == StampUnit::Unclear <==> !ticks && !nanos
            &&& unit_of(s, tb) == StampUnit::Nanos <==> !ticks && nanos
            &&& unit_of(s, tb) == StampUnit::Either <==> ticks && nanos && tb.numer_spec()
                == tb.denom_spec()
        }),
{
}

/// The spread of a list is its ends and its middle.
pub proof fn the_spread_is_read_from_the_list_in_order(s: Seq<i128>, i: int)
    requires
        0 <= i < s.len(),
    ensures
        int_spread_of(s).lowest <= s[i] <= int_spread_of(s).highest,
        s.contains(int_spread_of(s).lowest) && s.contains(int_spread_of(s).highest),
        exists|k: int|
            0 <= k < s.len() && int_spread_of(s).middle == #[trigger] ascending_ints(s)[k] && (2 * k
                == s.len() || 2 * k + 1 == s.len()),
{
    crate::order::a_range_holds_the_list(s, i);
    crate::order::the_range_is_read_from_the_list_in_order(s);
    let n = s.len() as int;
    let k = n / 2;
    let v = ascending_ints(s);
    assert(int_spread_of(s).middle == v[k] && (2 * k == n || 2 * k + 1 == n));
}

/// What a time stamp means is told from how far it is ahead: always, and by more than half a
/// buffer in the middle, and it is when the buffer is heard; never off by a quarter of a buffer
/// either way, and it is when it was asked for; the two exclude each other.
pub proof fn a_stamp_means_what_its_lead_says(ahead: IntSpread, buffer_ns: int)
    requires
        buffer_ns > 0,
        ahead.lowest <= ahead.middle <= ahead.highest,
    ensures
        ahead.lowest > 0 && 2 * ahead.middle > buffer_ns ==> clock_of(ahead, buffer_ns)
            == CallbackClock::Presentation,
        -(buffer_ns / 4) < ahead.lowest && ahead.highest < buffer_ns / 4 ==> clock_of(
            ahead,
            buffer_ns,
        ) == CallbackClock::Call,
        clock_of(ahead, buffer_ns) == CallbackClock::Presentation ==> ahead.lowest > 0 && 2
            * ahead.middle > buffer_ns,
        clock_of(ahead, buffer_ns) == CallbackClock::Call ==> -(buffer_ns / 4) < ahead.lowest
            && ahead.highest < buffer_ns / 4,
{
}

/// The first three callbacks do not count.
pub proof fn the_first_three_callbacks_do_not_count(rows: Seq<CallbackRow>, i: int)
    requires
        3 <= i < rows.len(),
    ensures
        warm(rows).len() == rows.len() - 3,
        warm(rows)[i - 3] == rows[i],
        aheads(rows)[i] == rows[i].ahead_ns,
        playbacks(rows)[i] == rows[i].playback_ns,
        periods(rows)[i] == rows[i].period_ns,
{
}

/// A buffer lasts as long as its frames do at the rate, in whole nanoseconds.
pub proof fn a_buffer_lasts_as_long_as_its_frames(frames: u32, rate: u32)
    requires
        rate > 0,
    ensures
        buffer_length_ns(frames, rate) * rate <= frames * 1_000_000_000 < (buffer_length_ns(
            frames,
            rate,
        ) + 1) * rate,
{
    let n = frames * 1_000_000_000;
    let r = rate as int;
    vstd::arithmetic::div_mod::lemma_fundamental_div_mod(n, r);
    let q = n / r;
    vstd::arithmetic::mul::lemma_mul_is_commutative(q, r);
    assert((q + 1) * r == q * r + r) by (nonlinear_arith);
}

/// Callbacks are told of only where two remain after the first three, and are steady where their
/// periods differ by less than fifty microseconds.
pub proof fn callbacks_are_steady_within_fifty_microseconds(
    rows: Vec<CallbackRow>,
    rate: u32,
    f: Option<CallbackFindings>,
)
    requires
        call_ensures(judge_callbacks, (&rows, rate), f),
    ensures
        f is None <==> rows@.len() < 5,
        f matches Some(x) ==> (x.steady <==> x.period.highest - x.period.lowest < 50_000),
        f matches Some(x) ==> (x.jitter_ns == x.period.highest - x.period.lowest
            || x.period.highest - x.period.lowest > i128::MAX || x.period.highest
            - x.period.lowest < i128::MIN),
{
}

} // verus!
