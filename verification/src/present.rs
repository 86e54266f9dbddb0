//! When frames of the beat really came on screen, against when they were meant to.

use crate::arith::abs;
use crate::decimal::{decimal, push_decimal};
use crate::float::{ascending, sorted, Float64};
use crate::order::{range, range_of, Range};
use crate::target::{median, middle_of, Middle};
use crate::time::{HostTime, Timebase};
use vstd::prelude::*;
use vstd::string::*;

verus! {

/// One frame: when it was to come on screen, and when it did; none where it was skipped.
#[derive(Clone, Copy, Debug, PartialEq, Eq, Structural)]
pub struct PresentRecord {
    pub frame: u64,
    pub target: HostTime,
    pub presented: Option<HostTime>,
}

/// How far the first `n` frames that came on screen were off, in nanoseconds.
pub open spec fn offsets_of(records: Seq<PresentRecord>, n: nat, tb: Timebase) -> Seq<i128>
    decreases n,
{
    if n == 0 {
        Seq::empty()
    } else {
        let front = offsets_of(records, (n - 1) as nat, tb);
        let r = records[n - 1];
        match r.presented {
            Some(p) => front.push((p.nanos(tb) - r.target.nanos(tb)) as i128),
            None => front,
        }
    }
}

/// Of the first `n` frames, how far the one closest to a moment was from it, the first of
/// those as close.
pub open spec fn nearest_to(
    records: Seq<PresentRecord>,
    t: HostTime,
    n: nat,
    tb: Timebase,
) -> Option<i128>
    decreases n,
{
    if n == 0 {
        None
    } else {
        let front = nearest_to(records, t, (n - 1) as nat, tb);
        match records[n - 1].presented {
            None => front,
            Some(p) => {
                let d = p.nanos(tb) - t.nanos(tb);
                match front {
                    None => Some(d as i128),
                    Some(held) => if abs(d) < abs(held as int) {
                        Some(d as i128)
                    } else {
                        front
                    },
                }
            },
        }
    }
}

/// The statistics of a run of beats.
pub struct PresentSummary {
    /// How many frames came on screen.
    pub reported: usize,
    /// How many did not.
    pub skipped: usize,
    /// How far they were off, in nanoseconds.
    pub offset_ns: Option<Range>,
    /// Of each tick, how far the nearest frame was off, in nanoseconds, positive where it came
    /// after the tick.
    pub nearest_presented_ns: Vec<Option<i128>>,
    /// What drawing a frame cost: the middle, and the most.
    pub cost_ms: Option<(Middle, Float64)>,
}

/// Of the first `n` frames, how many came on screen.
pub open spec fn shown_count(records: Seq<PresentRecord>, n: nat) -> nat
    decreases n,
{
    if n == 0 {
        0
    } else if records[n - 1].presented is Some {
        shown_count(records, (n - 1) as nat) + 1
    } else {
        shown_count(records, (n - 1) as nat)
    }
}

fn nearest(records: &Vec<PresentRecord>, t: HostTime, tb: Timebase) -> (d: Option<i128>)
    ensures
        d == nearest_to(records@, t, records@.len(), tb),
{
    let mut best: Option<i128> = None;
    let mut i: usize = 0;
    while i < records.len()
        invariant
            i <= records@.len(),
            best == nearest_to(records@, t, i as nat, tb),
            best is Some ==> -u64::MAX <= best->0 <= u64::MAX,
        decreases records@.len() - i,
    {
        if let Some(p) = records[i].presented {
            let d: i128 = p.signed_nanos_since(t, tb);
            let closer: bool = match best {
                None => true,
                Some(held) => (if d < 0 {
                    -d
                } else {
                    d
                }) < (if held < 0 {
                    -held
                } else {
                    held
                }),
            };
            if closer {
                best = Some(d);
            }
        }
        i = i + 1;
    }
    best
}

/// Sums a run up. `skipped_without_drawable` counts frames that were not even drawn,
/// `costs_ms` what the others cost, and `ticks` are the landings as the picture shows them.
pub fn summarize(
    records: &Vec<PresentRecord>,
    skipped_without_drawable: usize,
    costs_ms: &Vec<Float64>,
    ticks: &Vec<HostTime>,
    tb: Timebase,
) -> (s: PresentSummary)
    requires
        skipped_without_drawable + records@.len() <= usize::MAX,
    ensures
        s.reported == shown_count(records@, records@.len()),
        s.skipped == skipped_without_drawable + records@.len() - s.reported,
        s.offset_ns == (if s.reported == 0 {
            None
        } else {
            Some(range_of(offsets_of(records@, records@.len(), tb)))
        }),
        s.nearest_presented_ns@.len() == ticks@.len(),
        forall|k: int|
            0 <= k < ticks@.len() ==> #[trigger] s.nearest_presented_ns@[k] == nearest_to(
                records@,
                ticks@[k],
                records@.len(),
                tb,
            ),
        s.cost_ms == (if costs_ms@.len() == 0 {
            None
        } else {
            Some((middle_of(ascending(costs_ms@)), ascending(costs_ms@).last()))
        }),
{
    let mut offsets: Vec<i128> = Vec::new();
    let mut i: usize = 0;
    while i < records.len()
        invariant
            i <= records@.len(),
            offsets@ == offsets_of(records@, i as nat, tb),
            offsets@.len() == shown_count(records@, i as nat) <= i,
        decreases records@.len() - i,
    {
        let r: PresentRecord = records[i];
        if let Some(p) = r.presented {
            offsets.push(p.signed_nanos_since(r.target, tb));
        }
        i = i + 1;
    }
    let reported: usize = offsets.len();
    let mut nearest_presented_ns: Vec<Option<i128>> = Vec::new();
    let mut k: usize = 0;
    while k < ticks.len()
        invariant
            k <= ticks@.len(),
            nearest_presented_ns@.len() == k,
            forall|j: int|
                0 <= j < k ==> #[trigger] nearest_presented_ns@[j] == nearest_to(
                    records@,
                    ticks@[j],
                    records@.len(),
                    tb,
                ),
        decreases ticks@.len() - k,
    {
        nearest_presented_ns.push(nearest(records, ticks[k], tb));
        k = k + 1;
    }
    let cost_ms: Option<(Middle, Float64)> = if costs_ms.len() == 0 {
        None
    } else {
        let v: Vec<Float64> = sorted(costs_ms);
        Some((median(costs_ms), v[v.len() - 1]))
    };
    PresentSummary {
        reported,
        skipped: skipped_without_drawable + (records.len() - reported),
        offset_ns: range(&offsets),
        nearest_presented_ns,
        cost_ms,
    }
}

/// What is given as the nearest frame is one of them, and none is closer; nothing is given
/// only where nothing came on screen.
pub proof fn the_nearest_is_the_closest(
    records: Seq<PresentRecord>,
    t: HostTime,
    n: nat,
    i: int,
    tb: Timebase,
)
    requires
        n <= records.len(),
        0 <= i < n,
        records[i].presented is Some,
    ensures
        nearest_to(records, t, n, tb) is Some,
        abs(nearest_to(records, t, n, tb)->0 as int) <= abs(
            records[i].presented->0.nanos(tb) - t.nanos(tb),
        ),
        exists|j: int|
            0 <= j < n && (#[trigger] records[j]).presented is Some && nearest_to(records, t, n, tb)
                == Some((records[j].presented->0.nanos(tb) - t.nanos(tb)) as i128),
    decreases n,
{
    let last = n - 1;
    if i < last {
        the_nearest_is_the_closest(records, t, last as nat, i, tb);
    } else if exists|j: int| 0 <= j < last && (#[trigger] records[j]).presented is Some {
        let j = choose|j: int| 0 <= j < last && (#[trigger] records[j]).presented is Some;
        the_nearest_is_the_closest(records, t, last as nat, j, tb);
    } else {
        lemma_nothing_shown(records, t, last as nat, tb);
    }
    assert(records[last] == records[n - 1]);
}

proof fn lemma_nothing_shown(records: Seq<PresentRecord>, t: HostTime, n: nat, tb: Timebase)
    requires
        forall|j: int| 0 <= j < n ==> (#[trigger] records[j]).presented is None,
    ensures
        nearest_to(records, t, n, tb) is None,
    decreases n,
{
    if n > 0 {
        lemma_nothing_shown(records, t, (n - 1) as nat, tb);
    }
}

/// The figures of the two lines, written out in milliseconds.
pub struct PresentFigures {
    /// Signed, two decimals.
    pub middle: String,
    pub lowest: String,
    pub highest: String,
    /// Three decimals, where frames were drawn.
    pub cost: Option<CostFigures>,
    /// Of each tick, signed, one decimal.
    pub nearest: Vec<Option<String>>,
}

pub struct CostFigures {
    pub middle: String,
    pub most: String,
}

pub open spec fn first_words(reported: nat, skipped: nat, figures: PresentFigures) -> Seq<char> {
    if reported == 0 {
        "節拍上屏：沒有任何一格回報實際上屏時刻，跳過 "@ + decimal(skipped) + " 格"@
    } else {
        "節拍上屏："@ + decimal(reported) + " 格有回報，實際上屏 − 預測 中位 "@
            + figures.middle@ + " ms（"@ + figures.lowest@ + "–"@ + figures.highest@
            + "），跳過 "@ + decimal(skipped) + " 格"@ + match figures.cost {
            Some(c) => "；Metal 每格 中位 "@ + c.middle@ + " ms（最大 "@ + c.most@ + "）"@,
            None => ""@,
        }
    }
}

pub open spec fn second_words(nearest: Seq<Option<String>>, n: nat) -> Seq<char>
    decreases n,
{
    if n == 0 {
        "節拍上屏"@
    } else {
        let k = n - 1;
        second_words(nearest, k as nat) + "；第 "@ + decimal(k as nat) + match nearest[k] {
            Some(d) => " 拍最近實際上屏差 "@ + d@ + " ms"@,
            None => " 拍沒有上屏紀錄"@,
        }
    }
}

impl PresentSummary {
    /// The two lines for the log.
    pub fn lines(&self, figures: &PresentFigures) -> (l: (String, String))
        ensures
            l.0@ == first_words(self.reported as nat, self.skipped as nat, *figures),
            l.1@ == second_words(figures.nearest@, figures.nearest@.len()),
    {
        let mut first: String = String::new();
        if self.reported == 0 {
            first = "節拍上屏：沒有任何一格回報實際上屏時刻，跳過 ".to_owned();
            push_decimal(&mut first, self.skipped as u128);
            first.append(" 格");
        } else {
            first = "節拍上屏：".to_owned();
            push_decimal(&mut first, self.reported as u128);
            first.append(" 格有回報，實際上屏 − 預測 中位 ");
            first.append(figures.middle.as_str());
            first.append(" ms（");
            first.append(figures.lowest.as_str());
            first.append("–");
            first.append(figures.highest.as_str());
            first.append("），跳過 ");
            push_decimal(&mut first, self.skipped as u128);
            first.append(" 格");
            let mut cost: String = "".to_owned();
            if let Some(c) = &figures.cost {
                cost = "；Metal 每格 中位 ".to_owned();
                cost.append(c.middle.as_str());
                cost.append(" ms（最大 ");
                cost.append(c.most.as_str());
                cost.append("）");
            }
            first.append(cost.as_str());
        }
        let mut second: String = "節拍上屏".to_owned();
        let mut k: usize = 0;
        while k < figures.nearest.len()
            invariant
                k <= figures.nearest@.len(),
                second@ == second_words(figures.nearest@, k as nat),
            decreases figures.nearest@.len() - k,
        {
            second.append("；第 ");
            push_decimal(&mut second, k as u128);
            match &figures.nearest[k] {
                Some(d) => {
                    second.append(" 拍最近實際上屏差 ");
                    second.append(d.as_str());
                    second.append(" ms");
                },
                None => second.append(" 拍沒有上屏紀錄"),
            }
            assert(second@ =~= second_words(figures.nearest@, (k + 1) as nat));
            k = k + 1;
        }
        (first, second)
    }
}

/// Frames are counted and measured one by one: one that came on screen counts, and is off by as
/// much as it came after its moment; one that did not leaves everything as it is.
pub proof fn frames_are_measured_one_by_one(
    records: Seq<PresentRecord>,
    r: PresentRecord,
    tb: Timebase,
)
    ensures
        ({
            let n = records.len();
            let more = records.push(r);
            &&& r.presented is None ==> offsets_of(more, n + 1, tb) == offsets_of(records, n, tb)
                && shown_count(more, n + 1) == shown_count(records, n)
            &&& r.presented matches Some(p) ==> offsets_of(more, n + 1, tb) == offsets_of(
                records,
                n,
                tb,
            ).push((p.nanos(tb) - r.target.nanos(tb)) as i128) && shown_count(more, n + 1)
                == shown_count(records, n) + 1
        }),
        offsets_of(records, 0, tb) == Seq::<i128>::empty(),
        shown_count(records, 0) == 0,
{
    lemma_more_records(records, r, records.len(), tb);
    assert(records.push(r)[records.len() as int] == r);
}

proof fn lemma_more_records(records: Seq<PresentRecord>, r: PresentRecord, n: nat, tb: Timebase)
    requires
        n <= records.len(),
    ensures
        offsets_of(records.push(r), n, tb) == offsets_of(records, n, tb),
        shown_count(records.push(r), n) == shown_count(records, n),
    decreases n,
{
    if n > 0 {
        lemma_more_records(records, r, (n - 1) as nat, tb);
        assert(records.push(r)[n - 1] == records[n - 1]);
    }
}

/// A frame that is no closer than the closest so far changes nothing, and neither does one that
/// was never shown; a closer one takes its place.
pub proof fn only_a_closer_frame_is_the_nearest(
    records: Seq<PresentRecord>,
    r: PresentRecord,
    t: HostTime,
    tb: Timebase,
    held: i128,
)
    requires
        nearest_to(records, t, records.len(), tb) == Some(held),
    ensures
        ({
            let more = nearest_to(records.push(r), t, records.len() + 1, tb);
            &&& r.presented is None ==> more == Some(held)
            &&& r.presented matches Some(p) ==> {
                let d = p.nanos(tb) - t.nanos(tb);
                &&& abs(d) >= abs(held as int) ==> more == Some(held)
                &&& abs(d) < abs(held as int) ==> more == Some(d as i128)
            }
        }),
{
    lemma_nearest_of_a_front(records, r, t, records.len(), tb);
}

proof fn lemma_nearest_of_a_front(
    records: Seq<PresentRecord>,
    r: PresentRecord,
    t: HostTime,
    n: nat,
    tb: Timebase,
)
    requires
        n <= records.len(),
    ensures
        nearest_to(records.push(r), t, n, tb) == nearest_to(records, t, n, tb),
    decreases n,
{
    if n > 0 {
        lemma_nearest_of_a_front(records, r, t, (n - 1) as nat, tb);
    }
}

} // verus!
