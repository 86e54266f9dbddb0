//! One run of beats, from its start to the end of its tail: whether it can start and with
//! what, what each frame shows of it, and what is left to do once it is over.

use crate::arith::abs;
use crate::beat::{BeatPlan, Phase};
use crate::decimal::{decimal, push_decimal};
use crate::duration::{Duration, MAX_NANOS};
use crate::float::{ascending, sorted, Float64};
use crate::strip::StripKind;
use crate::target::{step_gives, AbortReason, Stage, TargetConfig, TargetMachine};
use crate::theme::{kind_of, resolve_kind, BeatStyle};
use crate::time::{HostTime, Timebase};
use vstd::prelude::*;
use vstd::string::*;

verus! {

/// The first tick comes at least this long after the start, in milliseconds: the audio stream
/// has to warm up.
pub const MIN_LEAD_MS: u64 = 500;

/// What a run of beats is for.
#[derive(Clone, Copy, Debug, PartialEq, Eq, Structural)]
pub enum Purpose {
    /// Listening to the beat.
    Demo,
    /// Counting down to a target.
    Countdown,
    /// A round of calibrating the reaction time.
    Calibration,
}

impl Purpose {
    pub open spec fn name(self) -> Seq<char> {
        match self {
            Purpose::Demo => "試聽"@,
            Purpose::Countdown => "倒數"@,
            Purpose::Calibration => "校正"@,
        }
    }

    pub fn label(self) -> (s: &'static str)
        ensures
            s@ == self.name(),
    {
        match self {
            Purpose::Demo => "試聽",
            Purpose::Countdown => "倒數",
            Purpose::Calibration => "校正",
        }
    }
}

/// Why a run of beats stopped.
#[derive(Clone, Copy, Debug, PartialEq, Eq, Structural)]
pub enum EndReason {
    /// It ran to the end.
    Finished,
    StoppedByUser,
    Rescheduled,
    TargetChanged,
    TargetCleared,
    CalibrationStopped,
}

impl EndReason {
    pub open spec fn words(self) -> Seq<char> {
        match self {
            EndReason::Finished => "結束"@,
            EndReason::StoppedByUser => "手動停止"@,
            EndReason::Rescheduled => "重新排程"@,
            EndReason::TargetChanged => "重新設定目標"@,
            EndReason::TargetCleared => "解除目標"@,
            EndReason::CalibrationStopped => "停止校正"@,
        }
    }

    pub fn text(self) -> (s: &'static str)
        ensures
            s@ == self.words(),
    {
        match self {
            EndReason::Finished => "結束",
            EndReason::StoppedByUser => "手動停止",
            EndReason::Rescheduled => "重新排程",
            EndReason::TargetChanged => "重新設定目標",
            EndReason::TargetCleared => "解除目標",
            EndReason::CalibrationStopped => "停止校正",
        }
    }
}

/// How long before zero the lock has to come at the latest: the time the picture takes to set
/// off, and the audio's warming up.
pub fn min_lock_margin(visual_lead: Duration) -> (d: Duration)
    requires
        visual_lead@ + 500_000_000 <= MAX_NANOS,
    ensures
        d@ == visual_lead@ + 500_000_000,
{
    visual_lead.plus(Duration::from_millis(MIN_LEAD_MS))
}

/// How far ahead a demonstration puts its zero: as far as asked, or as the picture needs.
pub fn demo_lead(asked: Duration, visual_lead: Duration) -> (d: Duration)
    requires
        visual_lead@ + 500_000_000 <= MAX_NANOS,
    ensures
        d@ == (if asked@ >= visual_lead@ + 500_000_000 {
            asked@
        } else {
            visual_lead@ + 500_000_000
        }),
{
    asked.longest(min_lock_margin(visual_lead))
}

/// How long before zero the picture of a plan sets off, by the period and the count that the
/// plan holds in place of those asked for.
pub open spec fn shown_lead(period_ns: int, ticks: int) -> int {
    crate::arith::max_of(period_ns, 1_000_000) * crate::arith::min_of(
        crate::arith::max_of(ticks, 1),
        crate::beat::MAX_TICKS as int,
    )
}

/// The plan of one calibration round: zero comes as soon as the picture and the audio allow.
/// It needs no model, host time alone.
pub fn calibration_plan(now: HostTime, period: Duration, ticks: u32, tb: Timebase) -> (p: BeatPlan)
    requires
        shown_lead(period@, ticks as int) + 500_000_000 <= MAX_NANOS,
    ensures
        p.zero == now.later(shown_lead(period@, ticks as int) + 500_000_000, tb),
        p.period@ == crate::arith::max_of(period@, 1_000_000),
        p.ticks == crate::arith::min_of(
            crate::arith::max_of(ticks as int, 1),
            crate::beat::MAX_TICKS as int,
        ),
        p.wf(),
{
    let shape: BeatPlan = BeatPlan::new(now, period, ticks);
    let lead: Duration = min_lock_margin(shape.visual_lead());
    BeatPlan { zero: now.plus(lead, tb), ..shape }
}

/// The switches that decide what a run comes with.
#[derive(Clone, Copy, Debug, PartialEq, Eq, Structural)]
pub struct Switches {
    pub sound_on: bool,
    pub glow_on: bool,
    /// The theme wants a glow.
    pub glow_in_theme: bool,
    /// The system asks for less motion.
    pub reduce_motion: bool,
}

/// What a run comes with.
#[derive(Clone, Copy, Debug, PartialEq, Eq, Structural)]
pub struct Setup {
    pub kind: StripKind,
    pub glow: bool,
    pub sound: bool,
    /// The panel keeps its size while the countdown runs.
    pub lock_size: bool,
}

#[derive(Clone, Copy, Debug, PartialEq, Eq, Structural)]
pub enum Start {
    /// The first tick is too close.
    TooLate,
    Go(Setup),
}

/// Whether the first tick of a plan leaves too little time.
pub open spec fn too_late(plan: BeatPlan, now: HostTime, tb: Timebase) -> bool {
    plan.landing(0, tb).0 < now.later(500_000_000, tb).0
}

/// What a plan starts with.
pub open spec fn start_gives(
    plan: BeatPlan,
    purpose: Purpose,
    style: BeatStyle,
    switches: Switches,
    now: HostTime,
    tb: Timebase,
) -> Start {
    if too_late(plan, now, tb) {
        Start::TooLate
    } else {
        Start::Go(
            Setup {
                kind: kind_of(style, switches.reduce_motion),
                glow: switches.glow_in_theme && switches.glow_on && !switches.reduce_motion,
                sound: switches.sound_on,
                lock_size: purpose == Purpose::Countdown,
            },
        )
    }
}

/// Starts a plan, where there is still time for it.
pub fn start(
    plan: &BeatPlan,
    purpose: Purpose,
    style: BeatStyle,
    switches: Switches,
    now: HostTime,
    tb: Timebase,
) -> (s: Start)
    requires
        plan.wf(),
    ensures
        s == start_gives(*plan, purpose, style, switches, now, tb),
{
    let first: HostTime = plan.first_tick(tb);
    let soonest: HostTime = now.plus(Duration::from_millis(MIN_LEAD_MS), tb);
    if first.0 < soonest.0 {
        return Start::TooLate;
    }
    Start::Go(
        Setup {
            kind: resolve_kind(style, switches.reduce_motion),
            glow: switches.glow_in_theme && switches.glow_on && !switches.reduce_motion,
            sound: switches.sound_on,
            lock_size: purpose == Purpose::Countdown,
        },
    )
}

/// The glow of a run that is going on, after the switch was turned.
#[derive(Clone, Copy, Debug, PartialEq, Eq, Structural)]
pub enum Turn {
    Keep,
    Begin,
    End,
}

/// What turning the sound on or off does to a run.
pub fn turn_sound(on: bool, sounding: bool) -> (t: Turn)
    ensures
        t == (if on && !sounding {
            Turn::Begin
        } else if !on {
            Turn::End
        } else {
            Turn::Keep
        }),
{
    if on && !sounding {
        Turn::Begin
    } else if !on {
        Turn::End
    } else {
        Turn::Keep
    }
}

/// What turning the glow on or off does to a run. It does not begin where the theme has none
/// or less motion is asked for.
pub fn turn_glow(switches: Switches, glowing: bool) -> (t: Turn)
    ensures
        t == (if switches.glow_on && !glowing && switches.glow_in_theme && !switches.reduce_motion {
            Turn::Begin
        } else if !switches.glow_on && glowing {
            Turn::End
        } else {
            Turn::Keep
        }),
{
    if switches.glow_on && !glowing && switches.glow_in_theme && !switches.reduce_motion {
        Turn::Begin
    } else if !switches.glow_on && glowing {
        Turn::End
    } else {
        Turn::Keep
    }
}

/// What a frame shows of the beat.
#[derive(Clone, Copy, Debug, PartialEq, Eq, Structural)]
pub enum BeatFrame {
    /// The tail is over.
    Ended,
    Shown(Phase),
    /// Before the picture sets off.
    Hidden,
}

/// Of two distances the one to keep: the one at hand unless the other is closer to zero.
pub open spec fn closer(held: Option<i128>, d: int) -> Option<int> {
    match held {
        None => Some(d),
        Some(h) => if abs(d) < abs(h as int) {
            Some(d)
        } else {
            Some(h as int)
        },
    }
}

/// A run of beats.
pub struct BeatSession {
    pub plan: BeatPlan,
    pub purpose: Purpose,
    pub kind: StripKind,
    /// Of each tick, how far the nearest frame was from its landing, in nanoseconds, positive
    /// where the frame came after it.
    pub nearest_frame_ns: Vec<Option<i128>>,
}

impl BeatSession {
    /// There is a slot for each tick, and what a slot holds is a distance of two instants.
    pub open spec fn wf(self) -> bool {
        &&& self.plan.wf()
        &&& self.nearest_frame_ns@.len() == self.plan.ticks
        &&& forall|k: int|
            0 <= k < self.plan.ticks && (#[trigger] self.nearest_frame_ns@[k]) is Some
                ==> -u64::MAX <= self.nearest_frame_ns@[k]->0 <= u64::MAX
    }

    pub fn new(plan: BeatPlan, purpose: Purpose, kind: StripKind) -> (s: BeatSession)
        requires
            plan.wf(),
        ensures
            s.wf(),
            s.plan == plan,
            s.purpose == purpose,
            s.kind == kind,
            forall|k: int| 0 <= k < plan.ticks ==> (#[trigger] s.nearest_frame_ns@[k]) is None,
    {
        let mut slots: Vec<Option<i128>> = Vec::new();
        let mut k: u32 = 0;
        while k < plan.ticks
            invariant
                k <= plan.ticks,
                slots@.len() == k,
                forall|j: int| 0 <= j < k ==> (#[trigger] slots@[j]) is None,
            decreases plan.ticks - k,
        {
            slots.push(None);
            k = k + 1;
        }
        BeatSession { plan, purpose, kind, nearest_frame_ns: slots }
    }

    /// The instant whose beat a frame shows: the picture may run ahead of the sound or behind.
    pub open spec fn picture_time(
        at: HostTime,
        ahead: bool,
        lead_ns: int,
        tb: Timebase,
    ) -> HostTime {
        if ahead {
            at.later(lead_ns, tb)
        } else {
            at.earlier(lead_ns, tb)
        }
    }

    /// Takes a frame that shows at `at`, and notes how close it came to each landing. Before
    /// the picture sets off a resting ball is shown where `idle_ball` asks for it.
    pub fn frame(
        &mut self,
        at: HostTime,
        ahead: bool,
        lead: Duration,
        idle_ball: bool,
        tb: Timebase,
    ) -> (f: BeatFrame)
        requires
            old(self).wf(),
        ensures
            final(self).wf(),
            final(self).plan == old(self).plan,
            final(self).purpose == old(self).purpose,
            final(self).kind == old(self).kind,
            ({
                let seen = BeatSession::picture_time(at, ahead, lead@, tb);
                let plan = old(self).plan;
                if seen.0 >= plan.over(tb).0 {
                    f is Ended && final(self).nearest_frame_ns == old(self).nearest_frame_ns
                } else {
                    &&& seen.0 >= plan.start(tb).0 ==> f is Shown && plan.phase_is(
                        seen,
                        tb,
                        Some(f->Shown_0),
                    )
                    &&& seen.0 < plan.start(tb).0 && idle_ball ==> {
                        &&& f is Shown
                        &&& f->Shown_0.beat == 0
                        &&& f->Shown_0.into@ == 0
                        &&& f->Shown_0.period == plan.period
                        &&& f->Shown_0.is_final == (plan.ticks == 1)
                        &&& f->Shown_0.since_landing is None
                        &&& !f->Shown_0.done
                    }
                    &&& seen.0 < plan.start(tb).0 && !idle_ball ==> f is Hidden
                    &&& forall|k: int|
                        #![trigger final(self).nearest_frame_ns@[k]]
                        0 <= k < plan.ticks ==> final(self).nearest_frame_ns@[k] is Some
                            && closer(
                            old(self).nearest_frame_ns@[k],
                            seen.nanos(tb) - plan.landing(k, tb).nanos(tb),
                        ) == Some(final(self).nearest_frame_ns@[k]->0 as int)
                }
            }),
    {
        let seen: HostTime = if ahead {
            at.plus(lead, tb)
        } else {
            at.minus(lead, tb)
        };
        if seen.0 >= self.plan.end(tb).0 {
            return BeatFrame::Ended;
        }
        let shown: BeatFrame = match self.plan.phase_at(seen, tb) {
            Some(p) => BeatFrame::Shown(p),
            None => if idle_ball {
                BeatFrame::Shown(Phase::idle(&self.plan))
            } else {
                BeatFrame::Hidden
            },
        };
        let plan: BeatPlan = self.plan;
        let mut k: u32 = 0;
        while k < plan.ticks
            invariant
                k <= plan.ticks,
                plan == self.plan,
                self.wf(),
                self.plan == old(self).plan,
                self.purpose == old(self).purpose,
                self.kind == old(self).kind,
                forall|j: int|
                    #![trigger self.nearest_frame_ns@[j]]
                    0 <= j < k ==> self.nearest_frame_ns@[j] is Some && closer(
                        old(self).nearest_frame_ns@[j],
                        seen.nanos(tb) - plan.landing(j, tb).nanos(tb),
                    ) == Some(self.nearest_frame_ns@[j]->0 as int),
                forall|j: int|
                    #![trigger self.nearest_frame_ns@[j]]
                    k <= j < plan.ticks ==> self.nearest_frame_ns@[j] == old(
                        self,
                    ).nearest_frame_ns@[j],
            decreases plan.ticks - k,
        {
            let landing: HostTime = plan.tick_at(k, tb);
            let d: i128 = seen.signed_nanos_since(landing, tb);
            let nearer: bool = match self.nearest_frame_ns[k as usize] {
                None => true,
                Some(held) => distance(d) < distance(held),
            };
            if nearer {
                self.nearest_frame_ns.set(k as usize, Some(d));
            }
            k = k + 1;
        }
        shown
    }
}

/// The distance from zero.
fn distance(d: i128) -> (n: i128)
    requires
        -u64::MAX <= d <= u64::MAX,
    ensures
        n == abs(d as int),
{
    if d < 0 {
        -d
    } else {
        d
    }
}

/// However many frames come, a slot holds the closest one: what is kept is no further off
/// than what was held, nor than the new frame, and it is one of the two.
pub proof fn the_nearest_frame_is_kept(held: Option<i128>, d: int)
    ensures
        closer(held, d) is Some,
        abs(closer(held, d)->0) <= abs(d),
        held is Some ==> abs(closer(held, d)->0) <= abs(held->0 as int),
        closer(held, d)->0 == d || held is Some && closer(held, d)->0 == held->0,
{
}

/// The stage of a countdown once its beat has stopped: it takes its last step where the beat
/// ran to the end, and is cancelled otherwise.
pub open spec fn stage_after_stop(
    config: TargetConfig,
    margin_ns: int,
    stage: Stage,
    completed: bool,
) -> Stage {
    if completed {
        step_gives(config, margin_ns, stage, None, true).0
    } else {
        Stage::Aborted(AbortReason::Cancelled)
    }
}

/// Closes a countdown whose beat has stopped.
pub fn close_countdown(m: &mut TargetMachine, completed: bool)
    ensures
        final(m).config_spec() == old(m).config_spec(),
        final(m).margin_ns() == old(m).margin_ns(),
        final(m).stage_spec() == stage_after_stop(
            old(m).config_spec(),
            old(m).margin_ns(),
            old(m).stage_spec(),
            completed,
        ),
{
    if completed {
        m.step(None, true);
    } else {
        m.abort(AbortReason::Cancelled);
    }
}

/// A locked countdown is over once its beat has stopped, however it did: done where the beat
/// ran to the end, cancelled where it did not.
pub proof fn a_stopped_beat_ends_the_countdown(
    config: TargetConfig,
    margin_ns: int,
    completed: bool,
)
    ensures
        stage_after_stop(config, margin_ns, Stage::Locked, completed) == (if completed {
            Stage::Done
        } else {
            Stage::Aborted(AbortReason::Cancelled)
        }),
{
}

/// The smallest, the middle and the largest of a list; of two in the middle, the larger.
pub open spec fn spread_of(s: Seq<Float64>) -> (Float64, Float64, Float64) {
    let v = ascending(s);
    (v[0], v[v.len() as int / 2], v[v.len() - 1])
}

/// The smallest, the middle and the largest of a list, where it holds anything.
pub fn spread(xs: &Vec<Float64>) -> (r: Option<(Float64, Float64, Float64)>)
    ensures
        r == (if xs@.len() == 0 {
            None
        } else {
            Some(spread_of(xs@))
        }),
{
    if xs.len() == 0 {
        return None;
    }
    let v: Vec<Float64> = sorted(xs);
    let n: usize = v.len();
    Some((v[0], v[n / 2], v[n - 1]))
}

/// The figures of the line on a start, written out.
pub struct StartFigures {
    /// The local time of zero, or why there is none.
    pub zero_local: String,
    /// Seconds until zero, three decimals.
    pub until_zero_s: String,
    pub period_ms: String,
    /// Seconds from the picture's start to zero, one decimal.
    pub visual_lead_s: String,
    /// The screen's rate, whole hertz.
    pub fps: String,
}

/// What else the line on a start speaks of.
pub struct StartNotes {
    /// The beats of the picture, those without a sound too.
    pub total_beats: u32,
    /// The landings at the front that make no sound.
    pub silent_landings: u32,
    /// The style was chosen in the settings.
    pub style_chosen: bool,
    /// The sound did start.
    pub sounding: bool,
    pub glow_screens: u64,
    pub reduce_motion: bool,
    /// The digits are still catching up with the model.
    pub slewing: bool,
}

/// What the line on a start says of landings without a sound, where there are any.
pub open spec fn silent_words(n: nat) -> Seq<char> {
    if n == 0 {
        ""@
    } else {
        "，前 "@ + decimal(n) + " 次落地無聲"@
    }
}

fn silent_note(n: u32) -> (s: String)
    ensures
        s@ == silent_words(n as nat),
{
    if n == 0 {
        return "".to_owned();
    }
    let mut s: String = "，前 ".to_owned();
    push_decimal(&mut s, n as u128);
    s.append(" 次落地無聲");
    s
}

pub open spec fn start_words(
    purpose: Purpose,
    plan: BeatPlan,
    kind: StripKind,
    figures: StartFigures,
    notes: StartNotes,
) -> Seq<char> {
    "節拍（"@ + purpose.name() + "）：歸零於本地時間 "@ + figures.zero_local@ + "（"@
        + figures.until_zero_s@ + " 秒後），"@ + decimal(plan.ticks as nat) + " 拍、拍距 "@
        + figures.period_ms@ + " ms、畫面歸零前 "@ + figures.visual_lead_s@ + " 秒起跑（共 "@
        + decimal(notes.total_beats as nat) + " 拍"@ + silent_words(notes.silent_landings as nat) + "）、樣式 "@ + kind.name() + (if notes.style_chosen {
        "（設定指定）"@
    } else {
        ""@
    }) + "、聲音"@ + (if notes.sounding {
        "開"@
    } else {
        "關"@
    }) + "、光暈 "@ + decimal(notes.glow_screens as nat) + " 個螢幕、刷新率 "@ + figures.fps@
        + " Hz"@ + (if notes.reduce_motion {
        "；系統開著「減少動態效果」"@
    } else {
        ""@
    }) + (if notes.slewing {
        "；注意：數字還在往模型中點追，落地與翻頁可能差幾毫秒"@
    } else {
        ""@
    })
}

/// The line on a start.
pub fn start_line(
    purpose: Purpose,
    plan: &BeatPlan,
    kind: StripKind,
    figures: &StartFigures,
    notes: &StartNotes,
) -> (s: String)
    ensures
        s@ == start_words(purpose, *plan, kind, *figures, *notes),
{
    let mut s: String = "節拍（".to_owned();
    s.append(purpose.label());
    s.append("）：歸零於本地時間 ");
    s.append(figures.zero_local.as_str());
    s.append("（");
    s.append(figures.until_zero_s.as_str());
    s.append(" 秒後），");
    push_decimal(&mut s, plan.ticks as u128);
    s.append(" 拍、拍距 ");
    s.append(figures.period_ms.as_str());
    s.append(" ms、畫面歸零前 ");
    s.append(figures.visual_lead_s.as_str());
    s.append(" 秒起跑（共 ");
    push_decimal(&mut s, notes.total_beats as u128);
    s.append(" 拍");
    s.append(silent_note(notes.silent_landings).as_str());
    s.append("）、樣式 ");
    s.append(kind.title());
    s.append(if notes.style_chosen {
        "（設定指定）"
    } else {
        ""
    });
    s.append("、聲音");
    s.append(if notes.sounding {
        "開"
    } else {
        "關"
    });
    s.append("、光暈 ");
    push_decimal(&mut s, notes.glow_screens as u128);
    s.append(" 個螢幕、刷新率 ");
    s.append(figures.fps.as_str());
    s.append(" Hz");
    s.append(if notes.reduce_motion {
        "；系統開著「減少動態效果」"
    } else {
        ""
    });
    s.append(if notes.slewing {
        "；注意：數字還在往模型中點追，落地與翻頁可能差幾毫秒"
    } else {
        ""
    });
    s
}

/// The line on a stop.
pub fn stop_line(purpose: Purpose, reason: EndReason) -> (s: String)
    ensures
        s@ == "節拍（"@ + purpose.name() + "）："@ + reason.words(),
{
    let mut s: String = "節拍（".to_owned();
    s.append(purpose.label());
    s.append("）：");
    s.append(reason.text());
    s
}

/// How late the frames' callbacks came after the refresh, written out in milliseconds with two
/// decimals.
pub struct LateFigures {
    pub middle: String,
    pub lowest: String,
    pub highest: String,
}

/// The part on each tick, as far as `n`.
pub open spec fn frame_words(nearest: Seq<Option<String>>, n: nat) -> Seq<char>
    decreases n,
{
    if n == 0 {
        Seq::empty()
    } else {
        let k = n - 1;
        frame_words(nearest, k as nat) + "；第 "@ + decimal(k as nat) + match nearest[k] {
            Some(d) => " 拍最近一格差 "@ + d@ + " ms"@,
            None => " 拍沒畫到"@,
        }
    }
}

pub open spec fn late_words(late: Option<LateFigures>) -> Seq<char> {
    match late {
        Some(l) => "，回呼晚於 vsync 中位 "@ + l.middle@ + " ms（"@ + l.lowest@ + "–"@
            + l.highest@ + "）"@,
        None => ""@,
    }
}

/// The line on the frames of a run: the rate and half a frame, how late the callbacks came,
/// and of each tick how far the nearest frame was, as written out.
pub fn frames_line(
    fps: &str,
    half_frame_ms: &str,
    late: &Option<LateFigures>,
    nearest: &Vec<Option<String>>,
) -> (s: String)
    ensures
        s@ == "節拍畫面："@ + fps@ + " Hz，半格 "@ + half_frame_ms@ + " ms"@ + late_words(*late)
            + frame_words(nearest@, nearest@.len()),
{
    let mut s: String = "節拍畫面：".to_owned();
    s.append(fps);
    s.append(" Hz，半格 ");
    s.append(half_frame_ms);
    s.append(" ms");
    let ghost head = s@;
    match late {
        Some(l) => {
            s.append("，回呼晚於 vsync 中位 ");
            s.append(l.middle.as_str());
            s.append(" ms（");
            s.append(l.lowest.as_str());
            s.append("–");
            s.append(l.highest.as_str());
            s.append("）");
        },
        None => s.append(""),
    }
    assert(s@ =~= head + late_words(*late));
    let ghost front = s@;
    let mut k: usize = 0;
    assert(s@ =~= front + frame_words(nearest@, 0));
    while k < nearest.len()
        invariant
            k <= nearest@.len(),
            s@ == front + frame_words(nearest@, k as nat),
        decreases nearest@.len() - k,
    {
        s.append("；第 ");
        push_decimal(&mut s, k as u128);
        match &nearest[k] {
            Some(d) => {
                s.append(" 拍最近一格差 ");
                s.append(d.as_str());
                s.append(" ms");
            },
            None => s.append(" 拍沒畫到"),
        }
        assert(s@ =~= front + frame_words(nearest@, (k + 1) as nat));
        k = k + 1;
    }
    s
}

/// A plan starts just where its first tick is at least half a second away, and then with what
/// the switches allow: the sound where it is on, the glow where the theme has one, it is on and
/// motion is not to be reduced; only a countdown holds the panel's size.
pub proof fn a_plan_starts_with_half_a_second_to_go(
    plan: BeatPlan,
    purpose: Purpose,
    style: BeatStyle,
    switches: Switches,
    now: HostTime,
    tb: Timebase,
)
    requires
        now.0 + tb.ticks_of(500_000_000) <= u64::MAX,
    ensures
        ({
            let s = start_gives(plan, purpose, style, switches, now, tb);
            &&& s is Go <==> plan.landing(0, tb).0 >= now.0 + tb.ticks_of(500_000_000)
            &&& s matches Start::Go(setup) ==> {
                &&& setup.sound == switches.sound_on
                &&& setup.glow ==> switches.glow_on && switches.glow_in_theme
                &&& switches.reduce_motion ==> !setup.glow
                &&& switches.glow_on && switches.glow_in_theme && !switches.reduce_motion
                    ==> setup.glow
                &&& setup.lock_size <==> purpose == Purpose::Countdown
                &&& setup.kind == kind_of(style, switches.reduce_motion)
            }
        }),
{
}

/// A picture that runs ahead shows what is still to come, one that runs behind what has been, by
/// the lead.
pub proof fn the_picture_runs_by_its_lead(at: HostTime, lead_ns: int, tb: Timebase)
    requires
        0 <= lead_ns <= u64::MAX,
        tb.ticks_of(lead_ns) <= at.0,
        at.0 + tb.ticks_of(lead_ns) <= u64::MAX,
    ensures
        BeatSession::picture_time(at, true, lead_ns, tb).0 == at.0 + tb.ticks_of(lead_ns),
        BeatSession::picture_time(at, false, lead_ns, tb).0 == at.0 - tb.ticks_of(lead_ns),
{
}

/// The spread of a list is its ends and its middle: nothing in it comes before the first nor
/// after the last, and in order half of it, cut to a whole number, stands before the middle.
pub proof fn the_spread_is_the_ends_and_the_middle(s: Seq<Float64>, i: int)
    requires
        0 <= i < s.len(),
    ensures
        spread_of(s).0.rank() <= s[i].rank() <= spread_of(s).2.rank(),
        s.contains(spread_of(s).0) && s.contains(spread_of(s).1) && s.contains(spread_of(s).2),
        exists|k: int|
            0 <= k < s.len() && spread_of(s).1 == #[trigger] ascending(s)[k] && (2 * k == s.len()
                || 2 * k + 1 == s.len()),
{
    let v = ascending(s);
    let n = s.len() as int;
    crate::float::ascending_puts_in_order(s);
    s.to_multiset_ensures();
    v.to_multiset_ensures();
    assert(s.contains(s[i]) && s.to_multiset().count(s[i]) > 0);
    assert(v.contains(s[i]));
    let j = choose|j: int| 0 <= j < v.len() && v[j] == s[i];
    assert(0 < j ==> v[0].rank() <= v[j].rank());
    assert(j < n - 1 ==> v[j].rank() <= v[n - 1].rank());
    assert(s.contains(v[0]) && s.contains(v[n / 2]) && s.contains(v[n - 1]));
    let k = n / 2;
    assert(spread_of(s).1 == v[k] && (2 * k == n || 2 * k + 1 == n));
}

/// A beat that is stopped cancels its countdown, at whatever stage; one that ran to the end ends
/// only a countdown that was locked.
pub proof fn only_a_locked_countdown_is_done(
    config: TargetConfig,
    margin_ns: int,
    stage: Stage,
)
    ensures
        stage_after_stop(config, margin_ns, stage, false) == Stage::Aborted(AbortReason::Cancelled),
        stage_after_stop(config, margin_ns, stage, true) == (if stage == Stage::Locked {
            Stage::Done
        } else {
            stage
        }),
{
}

/// The lead of a picture is a period for every tick, with at least a millisecond to the period
/// and one to thirty-two ticks.
pub proof fn the_lead_is_a_period_for_every_tick(period_ns: int, ticks: int)
    ensures
        period_ns >= 1_000_000 && 1 <= ticks <= 32 ==> shown_lead(period_ns, ticks) == period_ns
            * ticks,
        ticks < 1 ==> shown_lead(period_ns, ticks) == shown_lead(period_ns, 1),
        ticks > 32 ==> shown_lead(period_ns, ticks) == shown_lead(period_ns, 32),
        period_ns < 1_000_000 ==> shown_lead(period_ns, ticks) == shown_lead(1_000_000, ticks),
{
}

/// Turning the sound ends what sounds and begins what does not, and never both; turned to what
/// it is already, an on switch leaves it.
pub proof fn turning_the_sound_follows_the_switch(on: bool, sounding: bool, t: Turn)
    requires
        call_ensures(turn_sound, (on, sounding), t),
    ensures
        t == Turn::Begin <==> on && !sounding,
        t == Turn::End <==> !on,
{
}

/// Turning the glow on begins one only where the theme has it and motion is not to be reduced;
/// turning it off ends one that glows; otherwise nothing changes.
pub proof fn turning_the_glow_follows_the_switch(switches: Switches, glowing: bool, t: Turn)
    requires
        call_ensures(turn_glow, (switches, glowing), t),
    ensures
        t == Turn::Begin ==> switches.glow_on && switches.glow_in_theme && !switches.reduce_motion
            && !glowing,
        t == Turn::End <==> !switches.glow_on && glowing,
        switches.glow_on && glowing ==> t == Turn::Keep,
        !switches.glow_on && !glowing ==> t == Turn::Keep,
        switches.glow_on && switches.glow_in_theme && !switches.reduce_motion && !glowing ==> t
            == Turn::Begin,
{
}

/// A demonstration leaves what was asked and what the picture needs, and no more than the longer
/// of the two; what it needs is its lead and half a second.
pub proof fn a_demonstration_leaves_enough_time(
    asked: Duration,
    visual_lead: Duration,
    margin: Duration,
    d: Duration,
)
    requires
        call_ensures(min_lock_margin, (visual_lead,), margin),
        call_ensures(demo_lead, (asked, visual_lead), d),
    ensures
        margin@ - visual_lead@ == 500_000_000,
        d@ >= asked@,
        d@ >= margin@,
        d@ == asked@ || d@ == margin@,
{
}

/// A calibration round comes as soon as its picture and the audio allow: its zero is its own
/// picture's lead and half a second away.
pub proof fn a_calibration_round_comes_at_once(
    now: HostTime,
    period: Duration,
    ticks: u32,
    tb: Timebase,
    p: BeatPlan,
)
    requires
        call_ensures(calibration_plan, (now, period, ticks, tb), p),
    ensures
        p.wf(),
        p.zero == now.later(p.period@ * p.ticks + 500_000_000, tb),
        1_000_000 <= period@ ==> p.period@ == period@,
        1 <= ticks <= 32 ==> p.ticks == ticks,
{
}

/// Of two frames equally far off, the one that is held stays.
pub proof fn the_first_of_two_equally_close_frames_stays(held: i128, d: int)
    requires
        abs(d) == abs(held as int),
    ensures
        closer(Some(held), d) == Some(held as int),
{
}

/// A beat sounds where the switch is on, glows where the switch and the theme say so and motion
/// need not be reduced, and only that of a countdown keeps the panel at its size.
pub proof fn a_beat_follows_the_switches(
    plan: BeatPlan,
    purpose: Purpose,
    style: BeatStyle,
    switches: Switches,
    now: HostTime,
    tb: Timebase,
)
    ensures
        start_gives(plan, purpose, style, switches, now, tb) matches Start::Go(s) ==> {
            &&& s.sound == switches.sound_on
            &&& s.glow ==> switches.glow_on && switches.glow_in_theme
            &&& s.glow ==> !switches.reduce_motion
            &&& switches.glow_on && switches.glow_in_theme && !switches.reduce_motion ==> s.glow
            &&& s.lock_size ==> purpose == Purpose::Countdown
            &&& purpose == Purpose::Countdown ==> s.lock_size
        },
{
}

/// Nothing is said of ticks without sound where there were none, and something where there were.
pub proof fn silent_ticks_are_told(n: nat)
    ensures
        silent_words(0).len() == 0,
        n > 0 ==> silent_words(n).len() > decimal(n).len(),
{
    reveal_strlit("");
    reveal_strlit("，前 ");
    reveal_strlit(" 次落地無聲");
}

/// A frame of a beat that is over ends it; one before the picture starts shows a ball at rest or
/// nothing, and every other shows a phase.
pub proof fn a_frame_shows_what_is_due(
    s: &mut BeatSession,
    at: HostTime,
    ahead: bool,
    lead: Duration,
    idle_ball: bool,
    tb: Timebase,
    f: BeatFrame,
)
    requires
        old(s).plan.start(tb).0 < old(s).plan.over(tb).0,
        call_ensures(BeatSession::frame, (s, at, ahead, lead, idle_ball, tb), f),
    ensures
        ({
            let seen = BeatSession::picture_time(at, ahead, lead@ as int, tb);
            &&& f is Ended <==> seen.0 >= old(s).plan.over(tb).0
            &&& f is Hidden <==> seen.0 < old(s).plan.start(tb).0 && !idle_ball
            &&& seen.0 < old(s).plan.start(tb).0 && idle_ball ==> f->Shown_0.into@ == 0
                && f->Shown_0.since_landing is None && !f->Shown_0.done
        }),
        final(s).plan == old(s).plan,
        final(s).purpose == old(s).purpose,
{
}

} // verus!
