//! Calibrating the reaction time: a few rounds of beats, the nearest key press of each, and
//! the median of them.

use crate::decimal::{decimal, push_decimal};
use crate::float::{ascending, Float64};
use crate::session::Purpose;
use crate::target::{median, middle_of, Middle, TargetFile};
use vstd::prelude::*;
use vstd::string::*;

verus! {

/// The rounds that were pressed in, in order.
pub open spec fn pressed(rounds: Seq<Option<Float64>>) -> Seq<Float64>
    decreases rounds.len(),
{
    if rounds.len() == 0 {
        Seq::empty()
    } else {
        let front = pressed(rounds.drop_last());
        match rounds.last() {
            Some(ms) => front.push(ms),
            None => front,
        }
    }
}

/// One line per round, as far as `n`, with `、` between them.
pub open spec fn round_lines(figures: Seq<Option<String>>, n: nat) -> Seq<char>
    decreases n,
{
    if n == 0 {
        Seq::empty()
    } else {
        let i = n - 1;
        let front = if i == 0 {
            Seq::empty()
        } else {
            round_lines(figures, i as nat) + "、"@
        };
        front + "第 "@ + decimal(n) + " 輪 "@ + match figures[i] {
            Some(ms) => ms@ + " ms"@,
            None => "沒按到"@,
        }
    }
}

/// One calibration.
#[derive(Debug)]
pub struct CalibrationRun {
    pub total: u32,
    /// The reaction of each round in milliseconds; none where nothing was pressed in time.
    pub rounds: Vec<Option<Float64>>,
}

impl CalibrationRun {
    /// A calibration of at least one round.
    pub fn new(total: u32) -> (c: CalibrationRun)
        ensures
            c.total == (if total == 0 {
                1
            } else {
                total
            }),
            c.rounds@.len() == 0,
    {
        CalibrationRun {
            total: if total == 0 {
                1
            } else {
                total
            },
            rounds: Vec::new(),
        }
    }

    pub fn total(&self) -> (n: u32)
        ensures
            n == self.total,
    {
        self.total
    }

    /// The number of the next round, from one.
    pub fn next_round(&self) -> (n: u32)
        requires
            self.rounds@.len() < u32::MAX,
        ensures
            n == self.rounds@.len() + 1,
    {
        self.rounds.len() as u32 + 1
    }

    pub fn is_complete(&self) -> (b: bool)
        ensures
            b == (self.rounds@.len() >= self.total),
    {
        self.rounds.len() as u64 >= self.total as u64
    }

    /// Ends a round with its reaction.
    pub fn finish_round(&mut self, reaction_ms: Option<Float64>) -> (r: Option<Float64>)
        ensures
            r == reaction_ms,
            final(self).rounds@ == old(self).rounds@.push(reaction_ms),
            final(self).total == old(self).total,
    {
        self.rounds.push(reaction_ms);
        reaction_ms
    }

    pub fn samples_ms(&self) -> (v: Vec<Float64>)
        ensures
            v@ == pressed(self.rounds@),
    {
        let mut v: Vec<Float64> = Vec::new();
        let mut i: usize = 0;
        while i < self.rounds.len()
            invariant
                i <= self.rounds@.len(),
                v@ == pressed(self.rounds@.subrange(0, i as int)),
            decreases self.rounds@.len() - i,
        {
            proof {
                assert(self.rounds@.subrange(0, i + 1).drop_last() =~= self.rounds@.subrange(
                    0,
                    i as int,
                ));
            }
            match self.rounds[i] {
                Some(ms) => v.push(ms),
                None => {},
            }
            i = i + 1;
        }
        proof {
            assert(self.rounds@.subrange(0, i as int) =~= self.rounds@);
        }
        v
    }

    pub fn median_ms(&self) -> (m: Middle)
        ensures
            m == middle_of(ascending(pressed(self.rounds@))),
    {
        median(&self.samples_ms())
    }

    /// The line for the panel. `figures` holds the reaction of each round as rounded text,
    /// `middle` the median where there is one.
    pub fn summary(&self, figures: &Vec<Option<String>>, middle: &Option<String>) -> (s: String)
        requires
            figures@.len() == self.rounds@.len(),
        ensures
            s@ == round_lines(figures@, figures@.len()) + (match *middle {
                Some(m) => "；中位 "@ + m@ + " ms"@,
                None => "；沒有有效的輪次"@,
            }),
    {
        let mut s: String = String::new();
        let mut i: usize = 0;
        while i < figures.len()
            invariant
                i <= figures@.len(),
                s@ == round_lines(figures@, i as nat),
            decreases figures@.len() - i,
        {
            if i > 0 {
                s.append("、");
            }
            s.append("第 ");
            push_decimal(&mut s, i as u128 + 1);
            s.append(" 輪 ");
            match &figures[i] {
                Some(ms) => {
                    s.append(ms.as_str());
                    s.append(" ms");
                },
                None => s.append("沒按到"),
            }
            proof {
                assert(s@ =~= round_lines(figures@, (i + 1) as nat));
            }
            i = i + 1;
        }
        match middle {
            Some(m) => {
                s.append("；中位 ");
                s.append(m.as_str());
                s.append(" ms");
            },
            None => s.append("；沒有有效的輪次"),
        }
        proof {
            assert(s@ =~= round_lines(figures@, figures@.len()) + (match *middle {
                Some(m) => "；中位 "@ + m@ + " ms"@,
                None => "；沒有有效的輪次"@,
            }));
        }
        s
    }
}

/// What asking for a calibration comes to.
pub enum Request {
    /// One is running: it stops.
    Stop,
    /// Something else is running; the words for it.
    Refused(String),
    Begin,
}

/// Asks for a calibration. It stops one that is running, and waits for no other beat.
pub fn request(calibrating: bool, running: Option<Purpose>) -> (r: Request)
    ensures
        r is Stop <==> calibrating,
        r is Refused <==> !calibrating && running is Some,
        r is Refused ==> r->Refused_0@ == running->0.name() + "進行中，先停止節拍再校正"@,
{
    if calibrating {
        return Request::Stop;
    }
    match running {
        Some(p) => {
            let mut s: String = p.label().to_owned();
            s.append("進行中，先停止節拍再校正");
            Request::Refused(s)
        },
        None => Request::Begin,
    }
}

/// What the end of a round leads to.
#[derive(Clone, Copy, Debug, PartialEq, Eq, Structural)]
pub enum RoundEnd {
    /// The round was stopped, and the calibration with it.
    Cancelled,
    /// Another round follows, with this number.
    Next(u32),
    /// That was the last round; this is the middle of what was pressed.
    Finished(Middle),
}

/// Ends a round. `reaction_ms` is what was pressed in it; a round that did not run to its end
/// is not counted.
pub fn end_round(run: &mut CalibrationRun, completed: bool, reaction_ms: Option<Float64>) -> (e:
    RoundEnd)
    requires
        completed ==> old(run).rounds@.len() + 1 < u32::MAX,
    ensures
        final(run).total == old(run).total,
        final(run).rounds@ == (if completed {
            old(run).rounds@.push(reaction_ms)
        } else {
            old(run).rounds@
        }),
        e == (if !completed {
            RoundEnd::Cancelled
        } else if final(run).rounds@.len() >= final(run).total {
            RoundEnd::Finished(middle_of(ascending(pressed(final(run).rounds@))))
        } else {
            RoundEnd::Next((final(run).rounds@.len() + 1) as u32)
        }),
{
    if !completed {
        return RoundEnd::Cancelled;
    }
    run.finish_round(reaction_ms);
    if run.is_complete() {
        RoundEnd::Finished(run.median_ms())
    } else {
        RoundEnd::Next(run.next_round())
    }
}

/// The words on the panel after a round.
pub open spec fn round_words(e: RoundEnd, total: u32, middle: Option<Seq<char>>) -> Seq<char> {
    match e {
        RoundEnd::Cancelled => "校正已取消"@,
        RoundEnd::Next(round) => "校正中：第 "@ + decimal(round as nat) + "/"@ + decimal(
            total as nat,
        ) + " 輪"@,
        RoundEnd::Finished(_) => match middle {
            Some(m) => "校正完成：中位 "@ + m + " ms。按「採用校正結果」寫進反應時間"@,
            None => "校正完成，但沒有任何一輪按到"@,
        },
    }
}

/// What the panel says after a round. `middle` is the median as rounded text, where there is
/// one.
pub fn round_text(e: RoundEnd, total: u32, middle: &Option<String>) -> (s: String)
    ensures
        s@ == round_words(
            e,
            total,
            match *middle {
                Some(m) => Some(m@),
                None => None,
            },
        ),
{
    match e {
        RoundEnd::Cancelled => "校正已取消".to_owned(),
        RoundEnd::Next(round) => {
            let mut s: String = "校正中：第 ".to_owned();
            push_decimal(&mut s, round as u128);
            s.append("/");
            push_decimal(&mut s, total as u128);
            s.append(" 輪");
            s
        },
        RoundEnd::Finished(_) => match middle {
            Some(m) => {
                let mut s: String = "校正完成：中位 ".to_owned();
                s.append(m.as_str());
                s.append(" ms。按「採用校正結果」寫進反應時間");
                s
            },
            None => "校正完成，但沒有任何一輪按到".to_owned(),
        },
    }
}

/// Takes a measured reaction over as the one to count with. Says whether there was one.
pub fn adopt(file: &mut TargetFile, pending: &mut Option<Float64>) -> (taken: bool)
    ensures
        taken == (*old(pending) is Some),
        *final(pending) is None,
        final(file).reaction_ms == (match *old(pending) {
            Some(ms) => ms,
            None => old(file).reaction_ms,
        }),
        final(file).target_unix_s == old(file).target_unix_s,
        final(file).browser_ms == old(file).browser_ms,
        final(file).one_way_ms == old(file).one_way_ms,
        final(file).safety_ms == old(file).safety_ms,
        final(file).measure_before_s == old(file).measure_before_s,
        final(file).lock_before_s == old(file).lock_before_s,
        final(file).calibration_ms == old(file).calibration_ms,
{
    match *pending {
        Some(ms) => {
            file.reaction_ms = ms;
            *pending = None;
            true
        },
        None => false,
    }
}

/// What was pressed is what the rounds hold, in their order: a round without a press adds
/// nothing, one with a press adds it at the end, and rounds put together give what was pressed in
/// the first and then in the others.
pub proof fn presses_come_round_by_round(a: Seq<Option<Float64>>, b: Seq<Option<Float64>>, ms: Float64)
    ensures
        pressed(Seq::<Option<Float64>>::empty()) == Seq::<Float64>::empty(),
        pressed(a.push(None)) == pressed(a),
        pressed(a.push(Some(ms))) == pressed(a).push(ms),
        pressed(a + b) == pressed(a) + pressed(b),
    decreases b.len(),
{
    assert(a.push(None).drop_last() =~= a);
    assert(a.push(Some(ms)).drop_last() =~= a);
    if b.len() > 0 {
        presses_come_round_by_round(a, b.drop_last(), ms);
        assert((a + b).drop_last() =~= a + b.drop_last());
        assert((a + b).last() == b.last());
        assert(pressed(a + b) =~= pressed(a) + pressed(b));
    } else {
        assert(a + b =~= a);
        assert(pressed(a) + pressed(b) =~= pressed(a));
    }
}

/// A calibration goes on until its rounds are done: a round that was not run to its end counts
/// for nothing and ends it, every other counts, and the last gives the middle of what was
/// pressed.
pub proof fn a_calibration_runs_its_rounds(
    run: &mut CalibrationRun,
    completed: bool,
    reaction_ms: Option<Float64>,
    e: RoundEnd,
)
    requires
        call_ensures(end_round, (run, completed, reaction_ms), e),
    ensures
        e == RoundEnd::Cancelled <==> !completed,
        !completed ==> final(run).rounds@ == old(run).rounds@,
        completed ==> final(run).rounds@ == old(run).rounds@.push(reaction_ms),
        completed ==> (e is Finished <==> old(run).rounds@.len() + 1 >= old(run).total),
        e matches RoundEnd::Next(n) ==> old(run).rounds@.len() + 2 > u32::MAX || n
            == old(run).rounds@.len() + 2,
        final(run).total == old(run).total,
{
}

/// A measured reaction is taken over once, and everything else in the file stays.
pub proof fn a_measured_reaction_is_taken_over_once(
    file: &mut TargetFile,
    pending: &mut Option<Float64>,
    taken: bool,
)
    requires
        call_ensures(adopt, (file, pending), taken),
    ensures
        *final(pending) is None,
        taken <==> *old(pending) is Some,
        *old(pending) matches Some(ms) ==> final(file).reaction_ms == ms,
        !taken ==> final(file).reaction_ms == old(file).reaction_ms,
        final(file).target_unix_s == old(file).target_unix_s,
        final(file).safety_ms == old(file).safety_ms,
{
}

/// Asking for a calibration stops one that runs, begins one where nothing runs, and is refused
/// where anything else does.
pub proof fn a_calibration_waits_for_nothing_else(
    calibrating: bool,
    running: Option<Purpose>,
    r: Request,
)
    requires
        call_ensures(request, (calibrating, running), r),
    ensures
        calibrating ==> r is Stop,
        !calibrating && running is None ==> r is Begin,
        !calibrating && running is Some ==> r is Refused,
{
}

/// A calibration is complete once the next round would be one more than it has.
pub proof fn a_complete_calibration_has_no_next_round(c: CalibrationRun, n: u32, done: bool)
    requires
        call_ensures(CalibrationRun::next_round, (&c,), n),
        call_ensures(CalibrationRun::is_complete, (&c,), done),
    ensures
        n >= 1,
        done <==> n > c.total,
{
}

/// Each round is told behind those before it, with its number, which counts from one.
pub proof fn rounds_are_told_one_by_one(figures: Seq<Option<String>>, n: nat)
    requires
        n < figures.len(),
    ensures
        round_lines(figures, 0).len() == 0,
        ({
            let front = round_lines(figures, n);
            let told = (if n == 0 {
                ""@
            } else {
                "、"@
            }) + "第 "@ + decimal(n + 1);
            let more = round_lines(figures, n + 1);
            &&& more.len() > front.len() + told.len()
            &&& more.subrange(0, front.len() as int) == front
            &&& more.subrange(front.len() as int, (front + told).len() as int) == told
        }),
{
    let front = round_lines(figures, n);
    let told = (if n == 0 {
        ""@
    } else {
        "、"@
    }) + "第 "@ + decimal(n + 1);
    let more = round_lines(figures, n + 1);
    reveal_strlit("");
    reveal_strlit("、");
    reveal_strlit(" 輪 ");
    assert(more.subrange(0, front.len() as int) =~= front);
    assert(more.subrange(front.len() as int, (front + told).len() as int) =~= told);
}

} // verus!
