//! Aiming at a target: taking one, stepping towards it frame by frame, locking on to it, and
//! what the panel says of it.

use crate::arith::fits_i128;
use crate::decimal::{fixed_decimal, push_fixed};
use crate::display::WallClock;
use crate::duration::{Duration, MAX_NANOS};
use crate::model::{ClockModel, DriftTerms};
use crate::session::Start;
use crate::target::{
    step_gives, AbortReason, Action, LeadParams, Stage, TargetConfig, TargetFile, TargetMachine,
};
use crate::time::{HostTime, Timebase};
use vstd::prelude::*;
use vstd::string::*;

verus! {

/// A moment of Unix time, and where it was read.
#[derive(Clone, Copy, Debug, PartialEq, Eq, Structural)]
pub struct Now {
    pub unix_ns: i128,
    /// From the model; else from the system clock.
    pub from_model: bool,
}

/// What time it is: by the model where it can tell, else by the system clock, which will do to
/// see whether a target is past.
pub fn now_unix(
    model: &ClockModel,
    now: HostTime,
    terms: DriftTerms,
    system_theta_ns: i128,
    tb: Timebase,
) -> (n: Now)
    requires
        model.usable() ==> fits_i128(model.offset_ns + terms.drift_ns) && fits_i128(
            model.remote_ns(now, terms.drift_ns as int, tb),
        ),
        !model.usable() ==> fits_i128(now.nanos(tb) + system_theta_ns),
    ensures
        n.from_model == model.usable(),
        n.unix_ns == (if model.usable() {
            model.remote_ns(now, terms.drift_ns as int, tb)
        } else {
            now.nanos(tb) + system_theta_ns
        }),
{
    if model.is_usable() {
        Now { unix_ns: model.estimate_at(now, terms, tb).remote_unix_ns, from_model: true }
    } else {
        Now { unix_ns: now.as_nanos(tb) as i128 + system_theta_ns, from_model: false }
    }
}

/// Takes a target, which must lie ahead.
pub fn take_target(file: &mut TargetFile, target_unix_s: i64, lead: LeadParams, now: Now) -> (r:
    Result<(), String>)
    ensures
        r is Err <==> target_unix_s * 1_000_000_000 <= now.unix_ns,
        r is Err ==> r->Err_0@ == "目標時刻已過（依"@ + (if now.from_model {
            "標準時間"@
        } else {
            "系統時鐘"@
        }) + "）"@,
        r is Err ==> *final(file) == *old(file),
        r is Ok ==> {
            &&& final(file).target_unix_s == Some(target_unix_s)
            &&& final(file).lead_spec() == lead
            &&& final(file).measure_before_s == old(file).measure_before_s
            &&& final(file).lock_before_s == old(file).lock_before_s
            &&& final(file).calibration_ms == old(file).calibration_ms
        },
{
    if target_unix_s as i128 * 1_000_000_000 <= now.unix_ns {
        let mut s: String = "目標時刻已過（依".to_owned();
        s.append(if now.from_model {
            "標準時間"
        } else {
            "系統時鐘"
        });
        s.append("）");
        return Err(s);
    }
    file.target_unix_s = Some(target_unix_s);
    file.set_lead(lead);
    Ok(())
}

/// Gives a target up. Says whether there was one.
pub fn clear_target(target: &mut Option<TargetMachine>, file: &mut TargetFile) -> (had: bool)
    ensures
        had == (*old(target) is Some),
        *final(target) is None,
        final(file).target_unix_s == (if had {
            None
        } else {
            old(file).target_unix_s
        }),
        final(file).lead_spec() == old(file).lead_spec(),
        final(file).measure_before_s == old(file).measure_before_s,
        final(file).lock_before_s == old(file).lock_before_s,
        final(file).calibration_ms == old(file).calibration_ms,
{
    match target {
        None => false,
        Some(_) => {
            *target = None;
            file.target_unix_s = None;
            true
        },
    }
}

/// Starts a countdown over that has not locked yet, with the settings as they now are. One
/// that is locked or over is left alone.
pub fn rearmed(stage: Stage, config: Option<TargetConfig>, min_lock_margin: Duration) -> (m: Option<
    TargetMachine,
>)
    requires
        min_lock_margin@ + 1_000_000_000 <= MAX_NANOS,
    ensures
        m is Some <==> (stage == Stage::Armed || stage == Stage::Measuring) && config is Some,
        m is Some ==> {
            &&& m->0.stage_spec() == Stage::Armed
            &&& m->0.margin_ns() == min_lock_margin@
            &&& m->0.config_spec().target_unix_ns == config->0.target_unix_ns
            &&& m->0.config_spec().lead_ns == config->0.lead_ns
            &&& m->0.config_spec().lock_before@ == crate::arith::max_of(
                config->0.lock_before@,
                min_lock_margin@ + 1_000_000_000,
            )
            &&& m->0.config_spec().measure_before@ == crate::arith::max_of(
                config->0.measure_before@,
                m->0.config_spec().lock_before@,
            )
        },
{
    match (stage, config) {
        (Stage::Armed, Some(c)) => Some(TargetMachine::new(c, min_lock_margin)),
        (Stage::Measuring, Some(c)) => Some(TargetMachine::new(c, min_lock_margin)),
        _ => None,
    }
}

/// One frame's step of a countdown. From the lock on only the beat moves it.
pub fn step_target(m: &mut TargetMachine, now_remote: Option<i128>) -> (action: Option<Action>)
    requires
        old(m).stage_spec().progress() < 2 && now_remote is Some ==> fits_i128(
            old(m).config_spec().zero(),
        ) && fits_i128(old(m).config_spec().zero() - now_remote->0),
    ensures
        final(m).config_spec() == old(m).config_spec(),
        final(m).margin_ns() == old(m).margin_ns(),
        (final(m).stage_spec(), action) == step_gives(
            old(m).config_spec(),
            old(m).margin_ns(),
            old(m).stage_spec(),
            now_remote,
            false,
        ),
{
    if m.is_over() || m.is_locked() {
        return None;
    }
    m.step(now_remote, false)
}

/// Settles a lock: where the beat could not start, the countdown is aborted and the sampling
/// has to go on. Says whether the beat runs.
pub fn settle_lock(m: &mut TargetMachine, start: Start) -> (runs: bool)
    ensures
        runs == (start is Go),
        final(m).config_spec() == old(m).config_spec(),
        final(m).margin_ns() == old(m).margin_ns(),
        final(m).stage_spec() == (if runs {
            old(m).stage_spec()
        } else {
            Stage::Aborted(AbortReason::TooLateToLock)
        }),
{
    match start {
        Start::Go(_) => true,
        Start::TooLate => {
            m.abort(AbortReason::TooLateToLock);
            false
        },
    }
}

/// The target that the panel proposes: the next full hour.
pub fn proposed_target(now_unix_s: i64) -> (t: i64)
    requires
        (now_unix_s as int / 3_600 + 1) * 3_600 <= i64::MAX,
    ensures
        t as int % 3_600 == 0,
        now_unix_s < t <= now_unix_s + 3_600,
{
    let cut: i64 = now_unix_s % 3_600;
    let past: i64 = if cut < 0 {
        cut + 3_600
    } else {
        cut
    };
    now_unix_s + (3_600 - past)
}

pub open spec fn abort_words(reason: AbortReason) -> Seq<char> {
    match reason {
        AbortReason::TargetPassed => "已錯過"@,
        AbortReason::TooLateToLock => "來不及鎖定"@,
        AbortReason::Cancelled => "已取消"@,
    }
}

pub fn abort_text(reason: AbortReason) -> (s: &'static str)
    ensures
        s@ == abort_words(reason),
{
    match reason {
        AbortReason::TargetPassed => "已錯過",
        AbortReason::TooLateToLock => "來不及鎖定",
        AbortReason::Cancelled => "已取消",
    }
}

/// The figures of the target row, written out.
pub struct RowFigures {
    /// The time until the target.
    pub remaining: String,
    /// The lead, whole milliseconds.
    pub lead_ms: String,
}

pub open spec fn clock_words(w: WallClock) -> Seq<char> {
    fixed_decimal(w.hour as nat, 2) + ":"@ + fixed_decimal(w.minute as nat, 2) + ":"@
        + fixed_decimal(w.second as nat, 2)
}

pub open spec fn row_words(
    stage: Stage,
    usable: bool,
    target: WallClock,
    zero: WallClock,
    figures: RowFigures,
) -> Seq<char> {
    "目標 "@ + clock_words(target) + match stage {
        Stage::Armed => waiting_words(usable, "待命"@, figures),
        Stage::Measuring => waiting_words(usable, "量測中"@, figures),
        Stage::Locked => " · 已鎖定 · 歸零 "@ + clock_words(zero) + "."@ + fixed_decimal(
            zero.millis as nat,
            3,
        ),
        Stage::Done => " · 已結束"@,
        Stage::Aborted(reason) => " · "@ + abort_words(reason),
    }
}

/// The words of a countdown that waits.
pub open spec fn waiting_words(usable: bool, word: Seq<char>, figures: RowFigures) -> Seq<char> {
    if usable {
        " · "@ + figures.remaining@ + " · 提前 "@ + figures.lead_ms@ + " ms · "@ + word
    } else {
        " · 等待校時"@
    }
}

fn clock_text(w: &WallClock) -> (s: String)
    ensures
        s@ == clock_words(*w),
{
    let mut s: String = String::new();
    push_fixed(&mut s, w.hour as u64, 2);
    s.append(":");
    push_fixed(&mut s, w.minute as u64, 2);
    s.append(":");
    push_fixed(&mut s, w.second as u64, 2);
    assert(s@ =~= clock_words(*w));
    s
}

fn waiting_text(usable: bool, word: &str, figures: &RowFigures) -> (s: String)
    ensures
        s@ == waiting_words(usable, word@, *figures),
{
    if !usable {
        return " · 等待校時".to_owned();
    }
    let mut s: String = " · ".to_owned();
    s.append(figures.remaining.as_str());
    s.append(" · 提前 ");
    s.append(figures.lead_ms.as_str());
    s.append(" ms · ");
    s.append(word);
    s
}

/// The target row of the panel: the target, and how the countdown stands. `usable` says
/// whether the model can tell the time.
pub fn target_row(
    stage: Stage,
    usable: bool,
    target: &WallClock,
    zero: &WallClock,
    figures: &RowFigures,
) -> (s: String)
    requires
        target.wf(),
        zero.wf(),
    ensures
        s@ == row_words(stage, usable, *target, *zero, *figures),
{
    let mut s: String = "目標 ".to_owned();
    s.append(clock_text(target).as_str());
    let mut tail: String = String::new();
    match stage {
        Stage::Armed => {
            tail = waiting_text(usable, "待命", figures);
        },
        Stage::Measuring => {
            tail = waiting_text(usable, "量測中", figures);
        },
        Stage::Locked => {
            tail = " · 已鎖定 · 歸零 ".to_owned();
            tail.append(clock_text(zero).as_str());
            tail.append(".");
            push_fixed(&mut tail, zero.millis as u64, 3);
        },
        Stage::Done => {
            tail = " · 已結束".to_owned();
        },
        Stage::Aborted(reason) => {
            tail = " · ".to_owned();
            tail.append(abort_text(reason));
        },
    }
    s.append(tail.as_str());
    s
}

/// A target is taken just where it lies ahead, and refused without a trace where it does not.
pub proof fn a_target_must_lie_ahead(
    file: &mut TargetFile,
    target_unix_s: i64,
    lead: LeadParams,
    now: Now,
    r: Result<(), String>,
)
    requires
        call_ensures(take_target, (file, target_unix_s, lead, now), r),
    ensures
        r is Ok <==> target_unix_s * 1_000_000_000 > now.unix_ns,
        r is Err ==> *final(file) == *old(file),
        r is Ok ==> final(file).target_unix_s == Some(target_unix_s) && final(file).reaction_ms
            == lead.reaction_ms && final(file).browser_ms == lead.browser_ms && final(file).one_way_ms == lead.one_way_ms && final(file).safety_ms == lead.safety_ms,
{
}

/// What time it is is told by the model where it can be used, else by the system clock.
pub proof fn the_model_tells_the_time_where_it_can(
    model: ClockModel,
    now: HostTime,
    terms: DriftTerms,
    system_theta_ns: i128,
    tb: Timebase,
    n: Now,
)
    requires
        call_ensures(now_unix, (&model, now, terms, system_theta_ns, tb), n),
    ensures
        n.from_model <==> model.usable(),
        model.usable() ==> n.unix_ns - now.nanos(tb) == model.offset_ns + terms.drift_ns,
        !model.usable() ==> n.unix_ns - now.nanos(tb) == system_theta_ns,
{
}

/// A countdown starts over with new settings only while it waits.
pub proof fn only_a_waiting_countdown_starts_over(
    stage: Stage,
    config: TargetConfig,
    margin: Duration,
    m: Option<TargetMachine>,
)
    requires
        call_ensures(rearmed, (stage, Some(config), margin), m),
    ensures
        m is Some <==> stage.progress() < 2,
        m matches Some(x) ==> x.stage_spec() == Stage::Armed && x.config_spec().zero()
            == config.target_unix_ns - config.lead_ns && margin@ + 1_000_000_000
            <= x.config_spec().lock_before@ <= x.config_spec().measure_before@,
{
}

/// A lock whose beat could not start is given up, and one whose beat runs stays.
pub proof fn a_lock_without_a_beat_is_given_up(m: &mut TargetMachine, start: Start, runs: bool)
    requires
        call_ensures(settle_lock, (m, start), runs),
    ensures
        start == Start::TooLate ==> !runs && final(m).stage_spec() is Aborted,
        start is Go ==> runs && final(m).stage_spec() == old(m).stage_spec(),
{
}

/// A time of day has two digits for its hour, two for its minute and two for its second, with
/// colons between them.
pub proof fn a_time_of_day_has_two_digits_each(w: WallClock)
    requires
        w.wf(),
    ensures
        clock_words(w).len() == 8,
        clock_words(w)[2] == ':' && clock_words(w)[5] == ':',
        clock_words(w).subrange(0, 2) == fixed_decimal(w.hour as nat, 2),
        clock_words(w).subrange(3, 5) == fixed_decimal(w.minute as nat, 2),
        clock_words(w).subrange(6, 8) == fixed_decimal(w.second as nat, 2),
{
    reveal_strlit(":");
    crate::decimal::decimal_lengths(w.hour as nat, 2);
    crate::decimal::decimal_lengths(w.minute as nat, 2);
    crate::decimal::decimal_lengths(w.second as nat, 2);
    assert(clock_words(w).subrange(0, 2) =~= fixed_decimal(w.hour as nat, 2));
    assert(clock_words(w).subrange(3, 5) =~= fixed_decimal(w.minute as nat, 2));
    assert(clock_words(w).subrange(6, 8) =~= fixed_decimal(w.second as nat, 2));
}

/// The target that is proposed is the next full hour, never the present moment.
pub proof fn the_next_full_hour_is_proposed(now_unix_s: i64, t: i64)
    requires
        call_ensures(proposed_target, (now_unix_s,), t),
    ensures
        t as int == (now_unix_s as int / 3_600 + 1) * 3_600,
{
}

/// Clearing takes the target away, and from the file only where there was a countdown; the leads
/// and windows stay.
pub proof fn clearing_takes_only_the_target(
    target: &mut Option<TargetMachine>,
    file: &mut TargetFile,
    had: bool,
)
    requires
        call_ensures(clear_target, (target, file), had),
    ensures
        *final(target) is None,
        had <==> *old(target) is Some,
        had ==> final(file).target_unix_s is None,
        !had ==> final(file).target_unix_s == old(file).target_unix_s,
        final(file).reaction_ms == old(file).reaction_ms,
        final(file).safety_ms == old(file).safety_ms,
        final(file).measure_before_s == old(file).measure_before_s,
        final(file).lock_before_s == old(file).lock_before_s,
{
}

} // verus!
