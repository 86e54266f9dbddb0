//! Counting down to a target moment: when to measure again, when to lock the model and lay
//! out the beat, and when it is over. Also how a reaction time is picked from what the user
//! pressed.
//!
//! ```text
//! armed ── measure_before ──▶ measuring ── lock_before ──▶ locked ── beat over ──▶ done
//! ```
//!
//! No clock, network or window is touched. Every frame the program asks
//! [`TargetMachine::step`] with its estimate of the remote time and does what comes back.

use crate::arith::{fits_i128, max_of};
use crate::duration::{Duration, MAX_NANOS};
use crate::float::{ascending, sorted, Float64};
use vstd::prelude::*;

verus! {

/// How the lead is made up, in milliseconds: the zero moment comes before the target by the
/// reaction, the browser's time and the way there, less a margin for safety. A request
/// that arrives early may be refused, so a little late is better.
#[derive(Clone, Copy, Debug, PartialEq, Eq, Structural)]
pub struct LeadParams {
    pub reaction_ms: Float64,
    pub browser_ms: Float64,
    pub one_way_ms: Float64,
    pub safety_ms: Float64,
}

impl Default for LeadParams {
    /// 200, 50, 15 and 50 milliseconds.
    fn default() -> (l: LeadParams)
        ensures
            l.reaction_ms.bits == 0x4069_0000_0000_0000,
            l.browser_ms.bits == 0x4049_0000_0000_0000,
            l.one_way_ms.bits == 0x402e_0000_0000_0000,
            l.safety_ms.bits == 0x4049_0000_0000_0000,
    {
        LeadParams {
            reaction_ms: Float64 { bits: 0x4069_0000_0000_0000 },
            browser_ms: Float64 { bits: 0x4049_0000_0000_0000 },
            one_way_ms: Float64 { bits: 0x402e_0000_0000_0000 },
            safety_ms: Float64 { bits: 0x4049_0000_0000_0000 },
        }
    }
}

/// How long before zero the measuring starts, in seconds, unless said otherwise.
pub const DEFAULT_MEASURE_BEFORE_S: u64 = 900;

/// How long before zero the lock comes, in seconds, unless said otherwise.
pub const DEFAULT_LOCK_BEFORE_S: u64 = 60;

#[derive(Clone, Copy, Debug, PartialEq, Eq, Structural)]
pub struct TargetConfig {
    /// The target moment, Unix nanoseconds of remote time.
    pub target_unix_ns: i128,
    /// How long before the target zero comes, in nanoseconds. Negative where the safety
    /// margin is larger than the rest, and zero comes after the target.
    pub lead_ns: i128,
    /// How long before zero to start measuring.
    pub measure_before: Duration,
    /// How long before zero to lock.
    pub lock_before: Duration,
}

impl TargetConfig {
    /// The zero moment: the target less the lead.
    pub open spec fn zero(self) -> int {
        self.target_unix_ns - self.lead_ns
    }

    pub fn zero_unix_ns(&self) -> (z: i128)
        requires
            fits_i128(self.zero()),
        ensures
            z == self.zero(),
    {
        self.target_unix_ns - self.lead_ns
    }
}

#[derive(Clone, Copy, Debug, PartialEq, Eq, Structural)]
pub enum AbortReason {
    /// The zero moment is past.
    TargetPassed,
    /// Not locked yet and too close to zero to lay out the beat.
    TooLateToLock,
    /// The user stopped the countdown.
    Cancelled,
}

#[derive(Clone, Copy, Debug, PartialEq, Eq, Structural)]
pub enum Stage {
    /// There is a target; waiting.
    Armed,
    /// A new measurement has been asked for; waiting for the lock.
    Measuring,
    /// The model is frozen, the beat is laid out and running.
    Locked,
    /// The beat is over.
    Done,
    Aborted(AbortReason),
}

#[derive(Clone, Copy, Debug, PartialEq, Eq, Structural)]
pub enum Action {
    Measure,
    Lock,
    Finish,
    Abort(AbortReason),
}

impl Stage {
    /// How far along a stage is.
    pub open spec fn progress(self) -> int {
        match self {
            Stage::Armed => 0,
            Stage::Measuring => 1,
            Stage::Locked => 2,
            Stage::Done => 3,
            Stage::Aborted(_) => 3,
        }
    }
}

/// The countdown as a state machine. Everything is remote time; the program converts to
/// host time once, when it locks.
#[derive(Clone, Copy, Debug)]
pub struct TargetMachine {
    config: TargetConfig,
    stage: Stage,
    min_lock_margin: Duration,
}

/// One step of the countdown: the next stage, and what to do.
pub open spec fn step_gives(
    config: TargetConfig,
    margin_ns: int,
    stage: Stage,
    now_remote: Option<i128>,
    session_over: bool,
) -> (Stage, Option<Action>) {
    match stage {
        Stage::Locked => if session_over {
            (Stage::Done, Some(Action::Finish))
        } else {
            (stage, None)
        },
        Stage::Done => (stage, None),
        Stage::Aborted(_) => (stage, None),
        _ => match now_remote {
            None => (stage, None),
            Some(now) => {
                let remaining = config.zero() - now;
                if remaining < margin_ns {
                    let reason = if remaining <= 0 {
                        AbortReason::TargetPassed
                    } else {
                        AbortReason::TooLateToLock
                    };
                    (Stage::Aborted(reason), Some(Action::Abort(reason)))
                } else if remaining <= config.lock_before@ {
                    (Stage::Locked, Some(Action::Lock))
                } else if stage == Stage::Armed && remaining <= config.measure_before@ {
                    (Stage::Measuring, Some(Action::Measure))
                } else {
                    (stage, None)
                }
            },
        },
    }
}

impl TargetMachine {
    pub closed spec fn config_spec(&self) -> TargetConfig {
        self.config
    }

    pub closed spec fn stage_spec(&self) -> Stage {
        self.stage
    }

    /// The lock comes at least this long before zero: the time the picture needs to set
    /// off, and the audio to warm up.
    pub closed spec fn margin_ns(&self) -> int {
        self.min_lock_margin@
    }

    /// There is at least a second in which to lock, and measuring does not come after it.
    #[verifier::type_invariant]
    spec fn windows_nest(self) -> bool {
        &&& self.min_lock_margin@ + 1_000_000_000 <= self.config.lock_before@
        &&& self.config.lock_before@ <= self.config.measure_before@
    }

    /// The lock window is made at least a second longer than the margin, and measuring is
    /// made to start no later than the lock.
    pub fn new(config: TargetConfig, min_lock_margin: Duration) -> (m: TargetMachine)
        requires
            min_lock_margin@ + 1_000_000_000 <= MAX_NANOS,
        ensures
            m.stage_spec() == Stage::Armed,
            m.margin_ns() == min_lock_margin@,
            m.config_spec().target_unix_ns == config.target_unix_ns,
            m.config_spec().lead_ns == config.lead_ns,
            m.config_spec().lock_before@ == max_of(
                config.lock_before@,
                min_lock_margin@ + 1_000_000_000,
            ),
            m.config_spec().measure_before@ == max_of(
                config.measure_before@,
                m.config_spec().lock_before@,
            ),
    {
        let lock_before: Duration = config.lock_before.longest(
            min_lock_margin.plus(Duration::from_secs(1)),
        );
        let measure_before: Duration = config.measure_before.longest(lock_before);
        TargetMachine {
            config: TargetConfig {
                target_unix_ns: config.target_unix_ns,
                lead_ns: config.lead_ns,
                measure_before,
                lock_before,
            },
            stage: Stage::Armed,
            min_lock_margin,
        }
    }

    pub fn config(&self) -> (c: &TargetConfig)
        ensures
            *c == self.config_spec(),
            self.margin_ns() + 1_000_000_000 <= c.lock_before@ <= c.measure_before@,
    {
        proof {
            use_type_invariant(self);
        }
        &self.config
    }

    pub fn stage(&self) -> (s: Stage)
        ensures
            s == self.stage_spec(),
    {
        self.stage
    }

    pub fn is_locked(&self) -> (b: bool)
        ensures
            b == (self.stage_spec() == Stage::Locked),
    {
        self.stage == Stage::Locked
    }

    /// Over, one way or the other: nothing more will be asked for.
    pub fn is_over(&self) -> (b: bool)
        ensures
            b == (self.stage_spec().progress() == 3),
    {
        match self.stage {
            Stage::Done => true,
            Stage::Aborted(_) => true,
            _ => false,
        }
    }

    /// Takes a step. `now_remote` is the remote time where the model can tell it, else the
    /// machine waits where it is; `session_over` says that the beat has run out.
    pub fn step(&mut self, now_remote: Option<i128>, session_over: bool) -> (action: Option<Action>)
        requires
            old(self).stage_spec().progress() < 2 && now_remote is Some ==> fits_i128(
                old(self).config_spec().zero(),
            ) && fits_i128(old(self).config_spec().zero() - now_remote->0),
        ensures
            (final(self).stage_spec(), action) == step_gives(
                old(self).config_spec(),
                old(self).margin_ns(),
                old(self).stage_spec(),
                now_remote,
                session_over,
            ),
            final(self).config_spec() == old(self).config_spec(),
            final(self).margin_ns() == old(self).margin_ns(),
    {
        proof {
            use_type_invariant(&*self);
        }
        match self.stage {
            Stage::Locked => {
                if session_over {
                    self.stage = Stage::Done;
                    Some(Action::Finish)
                } else {
                    None
                }
            },
            Stage::Done => None,
            Stage::Aborted(_) => None,
            Stage::Armed | Stage::Measuring => {
                let now: i128 = match now_remote {
                    Some(now) => now,
                    None => {
                        return None;
                    },
                };
                let remaining: i128 = self.config.zero_unix_ns() - now;
                if remaining < self.min_lock_margin.as_nanos() as i128 {
                    let reason: AbortReason = if remaining <= 0 {
                        AbortReason::TargetPassed
                    } else {
                        AbortReason::TooLateToLock
                    };
                    self.stage = Stage::Aborted(reason);
                    return Some(Action::Abort(reason));
                }
                if remaining <= self.config.lock_before.as_nanos() as i128 {
                    self.stage = Stage::Locked;
                    return Some(Action::Lock);
                }
                if self.stage == Stage::Armed && remaining
                    <= self.config.measure_before.as_nanos() as i128 {
                    self.stage = Stage::Measuring;
                    return Some(Action::Measure);
                }
                None
            },
        }
    }

    /// For the program, where the beat cannot be laid out after all.
    pub fn abort(&mut self, reason: AbortReason)
        ensures
            final(self).stage_spec() == Stage::Aborted(reason),
            final(self).config_spec() == old(self).config_spec(),
            final(self).margin_ns() == old(self).margin_ns(),
    {
        proof {
            use_type_invariant(&*self);
        }
        self.stage = Stage::Aborted(reason);
    }
}

/// The countdown only goes forward: a step leaves the stage as it is and asks for nothing,
/// or moves on and asks for the one thing that belongs to the new stage.
pub proof fn countdown_only_goes_forward(
    config: TargetConfig,
    margin_ns: int,
    stage: Stage,
    now_remote: Option<i128>,
    session_over: bool,
)
    ensures
        ({
            let (next, action) = step_gives(config, margin_ns, stage, now_remote, session_over);
            &&& action is None ==> next == stage
            &&& action is Some ==> next.progress() > stage.progress()
            &&& action == Some(Action::Measure) ==> next == Stage::Measuring
            &&& action == Some(Action::Lock) ==> next == Stage::Locked
            &&& action == Some(Action::Finish) ==> stage == Stage::Locked && next == Stage::Done
            &&& forall|r: AbortReason| action == Some(Action::Abort(r)) ==> next == Stage::Aborted(r)
        }),
{
}

/// Once over, the countdown stays over.
pub proof fn an_ended_countdown_stays_ended(
    config: TargetConfig,
    margin_ns: int,
    stage: Stage,
    now_remote: Option<i128>,
    session_over: bool,
)
    requires
        stage.progress() == 3,
    ensures
        step_gives(config, margin_ns, stage, now_remote, session_over) == (
            stage,
            None::<Action>,
        ),
{
}

/// Without a usable model nothing moves before the lock.
pub proof fn an_unusable_model_waits(
    config: TargetConfig,
    margin_ns: int,
    stage: Stage,
    session_over: bool,
)
    requires
        stage.progress() < 2,
    ensures
        step_gives(config, margin_ns, stage, None, session_over) == (stage, None::<Action>),
{
}

/// A lock leaves at least the margin until zero, and comes no earlier than asked.
pub proof fn a_lock_leaves_the_margin(
    config: TargetConfig,
    margin_ns: int,
    stage: Stage,
    now: i128,
    session_over: bool,
)
    requires
        step_gives(config, margin_ns, stage, Some(now), session_over).1 == Some(Action::Lock),
    ensures
        margin_ns <= config.zero() - now <= config.lock_before@,
{
}

/// The countdown is aborted for lateness only where less than the margin is left: with more,
/// it never is.
pub proof fn only_lateness_aborts(
    config: TargetConfig,
    margin_ns: int,
    stage: Stage,
    now: i128,
    session_over: bool,
)
    requires
        stage.progress() < 2,
    ensures
        step_gives(config, margin_ns, stage, Some(now), session_over).0 is Aborted <==> config.zero()
            - now < margin_ns,
{
}

/// A countdown that waits locks on every step in the lock window: with at least the margin and
/// at most `lock_before` left until the target less the lead, whatever came before.
pub proof fn a_step_in_the_lock_window_locks(
    config: TargetConfig,
    margin_ns: int,
    stage: Stage,
    now: i128,
    session_over: bool,
)
    requires
        stage == Stage::Armed || stage == Stage::Measuring,
        margin_ns <= config.target_unix_ns - config.lead_ns - now <= config.lock_before@,
    ensures
        step_gives(config, margin_ns, stage, Some(now), session_over) == (
            Stage::Locked,
            Some(Action::Lock),
        ),
{
}

/// A countdown that is armed asks for a measurement on every step in the measuring window, and
/// one that has asked does not ask again: it waits.
pub proof fn a_step_in_the_measuring_window_measures_once(
    config: TargetConfig,
    margin_ns: int,
    now: i128,
    session_over: bool,
)
    requires
        margin_ns <= config.lock_before@,
        config.lock_before@ < config.target_unix_ns - config.lead_ns - now
            <= config.measure_before@,
    ensures
        step_gives(config, margin_ns, Stage::Armed, Some(now), session_over) == (
            Stage::Measuring,
            Some(Action::Measure),
        ),
        step_gives(config, margin_ns, Stage::Measuring, Some(now), session_over) == (
            Stage::Measuring,
            None::<Action>,
        ),
{
}

/// Before the measuring window nothing happens.
pub proof fn before_its_windows_a_countdown_waits(
    config: TargetConfig,
    margin_ns: int,
    stage: Stage,
    now: i128,
    session_over: bool,
)
    requires
        stage == Stage::Armed || stage == Stage::Measuring,
        margin_ns <= config.lock_before@ <= config.measure_before@,
        config.target_unix_ns - config.lead_ns - now > config.measure_before@,
    ensures
        step_gives(config, margin_ns, stage, Some(now), session_over) == (stage, None::<Action>),
{
}

/// A countdown that comes too close to zero unlocked ends, and says why: past zero, or at it, the
/// target was missed; before it there was no time left to lock.
pub proof fn a_late_countdown_says_why(
    config: TargetConfig,
    margin_ns: int,
    stage: Stage,
    now: i128,
    session_over: bool,
)
    requires
        stage == Stage::Armed || stage == Stage::Measuring,
        margin_ns > 0,
    ensures
        now >= config.target_unix_ns - config.lead_ns ==> step_gives(
            config,
            margin_ns,
            stage,
            Some(now),
            session_over,
        ) == (
            Stage::Aborted(AbortReason::TargetPassed),
            Some(Action::Abort(AbortReason::TargetPassed)),
        ),
        0 < config.target_unix_ns - config.lead_ns - now < margin_ns ==> step_gives(
            config,
            margin_ns,
            stage,
            Some(now),
            session_over,
        ) == (
            Stage::Aborted(AbortReason::TooLateToLock),
            Some(Action::Abort(AbortReason::TooLateToLock)),
        ),
{
}

/// Once locked, only the end of the beat moves a countdown, and it does so at once, whatever
/// the time is.
pub proof fn a_locked_countdown_ends_with_the_beat(
    config: TargetConfig,
    margin_ns: int,
    now_remote: Option<i128>,
)
    ensures
        step_gives(config, margin_ns, Stage::Locked, now_remote, true) == (
            Stage::Done,
            Some(Action::Finish),
        ),
        step_gives(config, margin_ns, Stage::Locked, now_remote, false) == (
            Stage::Locked,
            None::<Action>,
        ),
{
}

/// The stages come one after the other, and the two ends are as far as it goes.
pub proof fn stages_come_in_order(reason: AbortReason)
    ensures
        Stage::Armed.progress() < Stage::Measuring.progress() < Stage::Locked.progress()
            < Stage::Done.progress() == Stage::Aborted(reason).progress(),
{
}

/// How long before zero a key still counts, in milliseconds.
pub const CALIBRATION_BEFORE_MS: u64 = 300;

/// How long after zero a key still counts, in milliseconds.
pub const CALIBRATION_AFTER_MS: u64 = 700;

pub const CALIBRATION_ROUNDS: u32 = 5;

/// Whether a delay lies in a window.
pub open spec fn in_window(d: Float64, lo: Float64, hi: Float64) -> bool {
    lo.le(d) && d.le(hi)
}

/// Whether the delay at `i` is the one to pick: in the window, no other in it closer to zero,
/// and none before it as close.
pub open spec fn is_nearest(delays: Seq<Float64>, lo: Float64, hi: Float64, i: int) -> bool {
    &&& 0 <= i < delays.len()
    &&& in_window(delays[i], lo, hi)
    &&& forall|j: int|
        #![trigger delays[j]]
        0 <= j < delays.len() && in_window(delays[j], lo, hi) ==> delays[i].magnitude()
            <= delays[j].magnitude()
    &&& forall|j: int|
        #![trigger delays[j]]
        0 <= j < i && in_window(delays[j], lo, hi) ==> delays[i].magnitude()
            < delays[j].magnitude()
}

/// The reaction of one round: of the delays of all events after zero, in seconds, the one
/// closest to zero within the window `[lo, hi]`. It may be negative, as people anticipate.
pub fn pick_reaction(delays: &Vec<Float64>, lo: Float64, hi: Float64) -> (r: Option<Float64>)
    ensures
        r is Some ==> exists|i: int|
            #[trigger] is_nearest(delays@, lo, hi, i) && r == Some(delays@[i]),
        r is None <==> forall|j: int|
            0 <= j < delays@.len() ==> !in_window(#[trigger] delays@[j], lo, hi),
{
    let mut best: Option<Float64> = None;
    let ghost mut at: int = 0;
    let mut i: usize = 0;
    while i < delays.len()
        invariant
            i <= delays@.len(),
            best is None ==> forall|j: int|
                0 <= j < i ==> !in_window(#[trigger] delays@[j], lo, hi),
            best is Some ==> is_nearest(delays@.subrange(0, i as int), lo, hi, at) && best == Some(
                delays@[at],
            ),
        decreases delays@.len() - i,
    {
        let d: Float64 = delays[i];
        let ghost shorter = delays@.subrange(0, i as int);
        let ghost longer = delays@.subrange(0, i + 1);
        assert(forall|j: int| 0 <= j < i ==> shorter[j] == #[trigger] longer[j]);
        assert(forall|j: int| 0 <= j < i ==> #[trigger] shorter[j] == delays@[j]);
        if lo.at_most(d) && d.at_most(hi) {
            let closer: bool = match best {
                None => true,
                Some(b) => d.magnitude_bits() < b.magnitude_bits(),
            };
            if closer {
                best = Some(d);
                proof {
                    at = i as int;
                }
            }
        }
        i = i + 1;
    }
    proof {
        assert(delays@.subrange(0, i as int) =~= delays@);
    }
    best
}

/// At most one delay can be the one to pick.
pub proof fn the_pick_is_unique(delays: Seq<Float64>, lo: Float64, hi: Float64, i: int, j: int)
    requires
        is_nearest(delays, lo, hi, i),
        is_nearest(delays, lo, hi, j),
    ensures
        i == j,
{
    let a = delays[i];
    let b = delays[j];
}

/// What is picked counts and is nearest: it lies between the bounds, nothing else that does is
/// closer to zero, and of those as close it came first.
pub proof fn the_pick_is_the_nearest_that_counts(
    delays: Seq<Float64>,
    lo: Float64,
    hi: Float64,
    i: int,
    j: int,
)
    requires
        is_nearest(delays, lo, hi, i),
        0 <= j < delays.len(),
        lo.le(delays[j]) && delays[j].le(hi),
    ensures
        0 <= i < delays.len(),
        lo.le(delays[i]) && delays[i].le(hi),
        delays[i].magnitude() <= delays[j].magnitude(),
        j < i ==> delays[i].magnitude() < delays[j].magnitude(),
{
    assert(in_window(delays[j], lo, hi));
}

/// The middle of a list of numbers.
#[derive(Clone, Copy, Debug, PartialEq, Eq, Structural)]
pub enum Middle {
    /// The list is empty.
    Nothing,
    /// The one in the middle of an odd number.
    One(Float64),
    /// The two in the middle of an even number, whose mean is the median.
    Two(Float64, Float64),
}

/// The middle of a list in order.
pub open spec fn middle_of(s: Seq<Float64>) -> Middle {
    let n = s.len();
    if n == 0 {
        Middle::Nothing
    } else if n % 2 == 1 {
        Middle::One(s[n as int / 2])
    } else {
        Middle::Two(s[n as int / 2 - 1], s[n as int / 2])
    }
}

/// The median of a list: the middle of the numbers put in order.
pub fn median(xs: &Vec<Float64>) -> (m: Middle)
    ensures
        m == middle_of(ascending(xs@)),
        m is Nothing <==> xs@.len() == 0,
{
    let v: Vec<Float64> = sorted(xs);
    let n: usize = v.len();
    if n == 0 {
        Middle::Nothing
    } else if n % 2 == 1 {
        Middle::One(v[n / 2])
    } else {
        Middle::Two(v[n / 2 - 1], v[n / 2])
    }
}

/// The median splits the list in half: of an odd number of values in order, as many stand before
/// the one given as after it; of an even number, as many before the first of the two as after
/// the second, and the two are next to each other.
pub proof fn the_middle_splits_the_list(s: Seq<Float64>)
    ensures
        middle_of(s) is Nothing <==> s.len() == 0,
        middle_of(s) is One <==> s.len() as int % 2 == 1,
        middle_of(s) matches Middle::One(m) ==> exists|i: int|
            0 <= i < s.len() && m == #[trigger] s[i] && s.subrange(0, i).len() == s.subrange(
                i + 1,
                s.len() as int,
            ).len(),
        middle_of(s) matches Middle::Two(a, b) ==> exists|i: int|
            0 <= i < s.len() - 1 && a == #[trigger] s[i] && b == s[i + 1] && s.subrange(
                0,
                i,
            ).len() == s.subrange(i + 2, s.len() as int).len(),
{
    let n = s.len() as int;
    if n > 0 {
        if n % 2 == 1 {
            let i = (n - 1) / 2;
            assert(s.subrange(0, i).len() == s.subrange(i + 1, n).len());
            assert(middle_of(s) == Middle::One(s[i]));
        } else {
            let i = n / 2 - 1;
            assert(s.subrange(0, i).len() == s.subrange(i + 2, n).len());
            assert(middle_of(s) == Middle::Two(s[i], s[i + 1]));
        }
    }
}

/// The median is in the middle of the numbers themselves, however they come: it is one of them,
/// it does not come before the first nor after the last, and at most half of the places in
/// order are before it and at most half after it.
pub proof fn the_median_is_in_the_middle(xs: Seq<Float64>)
    ensures
        ({
            let v = ascending(xs);
            let n = xs.len() as int;
            match middle_of(v) {
                Middle::Nothing => n == 0,
                Middle::One(m) => xs.contains(m) && exists|i: int|
                    2 * i + 1 == n && 0 <= i < n && #[trigger] v[i] == m && (forall|j: int|
                        0 <= j < i ==> (#[trigger] v[j]).rank() <= m.rank()) && (forall|j: int|
                        i < j < n ==> m.rank() <= (#[trigger] v[j]).rank()),
                Middle::Two(a, b) => xs.contains(a) && xs.contains(b) && exists|i: int|
                    2 * i + 2 == n && 0 <= i && #[trigger] v[i] == a && v[i + 1] == b && (forall|
                        j: int,
                    |
                        0 <= j < i ==> (#[trigger] v[j]).rank() <= a.rank()) && (forall|j: int|
                        i + 1 < j < n ==> b.rank() <= (#[trigger] v[j]).rank()) && a.rank()
                        <= b.rank(),
            }
        }),
{
    let v = ascending(xs);
    crate::float::ascending_puts_in_order(xs);
    let n = xs.len() as int;
    if n > 0 {
        if n % 2 == 1 {
            let i = n / 2;
            assert(2 * i + 1 == n && v[i] == v[n / 2]);
            assert(xs.contains(v[i]));
        } else {
            let i = n / 2 - 1;
            assert(2 * i + 2 == n && v[i] == v[n / 2 - 1]);
            assert(xs.contains(v[i]));
            assert(xs.contains(v[i + 1]));
        }
    }
}

/// What is kept about a target between runs of the program.
#[derive(Clone, Debug, PartialEq, Eq)]
pub struct TargetFile {
    /// The target moment in Unix seconds of remote time, where there is one.
    pub target_unix_s: Option<i64>,
    pub reaction_ms: Float64,
    pub browser_ms: Float64,
    pub one_way_ms: Float64,
    pub safety_ms: Float64,
    pub measure_before_s: u64,
    pub lock_before_s: u64,
    /// The reactions of the last calibration in milliseconds, for people to read.
    pub calibration_ms: Vec<Float64>,
}

impl Default for TargetFile {
    fn default() -> (t: TargetFile)
        ensures
            t.target_unix_s is None,
            t.reaction_ms.bits == 0x4069_0000_0000_0000,
            t.browser_ms.bits == 0x4049_0000_0000_0000,
            t.one_way_ms.bits == 0x402e_0000_0000_0000,
            t.safety_ms.bits == 0x4049_0000_0000_0000,
            t.measure_before_s == 900,
            t.lock_before_s == 60,
            t.calibration_ms@.len() == 0,
    {
        let lead: LeadParams = LeadParams::default();
        TargetFile {
            target_unix_s: None,
            reaction_ms: lead.reaction_ms,
            browser_ms: lead.browser_ms,
            one_way_ms: lead.one_way_ms,
            safety_ms: lead.safety_ms,
            measure_before_s: DEFAULT_MEASURE_BEFORE_S,
            lock_before_s: DEFAULT_LOCK_BEFORE_S,
            calibration_ms: Vec::new(),
        }
    }
}

impl TargetFile {
    pub open spec fn lead_spec(self) -> LeadParams {
        LeadParams {
            reaction_ms: self.reaction_ms,
            browser_ms: self.browser_ms,
            one_way_ms: self.one_way_ms,
            safety_ms: self.safety_ms,
        }
    }

    pub fn lead(&self) -> (l: LeadParams)
        ensures
            l == self.lead_spec(),
    {
        LeadParams {
            reaction_ms: self.reaction_ms,
            browser_ms: self.browser_ms,
            one_way_ms: self.one_way_ms,
            safety_ms: self.safety_ms,
        }
    }

    pub fn set_lead(&mut self, lead: LeadParams)
        ensures
            final(self).lead_spec() == lead,
            final(self).target_unix_s == old(self).target_unix_s,
            final(self).measure_before_s == old(self).measure_before_s,
            final(self).lock_before_s == old(self).lock_before_s,
            final(self).calibration_ms == old(self).calibration_ms,
    {
        self.reaction_ms = lead.reaction_ms;
        self.browser_ms = lead.browser_ms;
        self.one_way_ms = lead.one_way_ms;
        self.safety_ms = lead.safety_ms;
    }

    /// The settings of the countdown, where there is a target. `lead_ns` is the lead that the
    /// parameters come to.
    pub fn config(&self, lead_ns: i128) -> (c: Option<TargetConfig>)
        ensures
            c is Some <==> self.target_unix_s is Some,
            c is Some ==> {
                &&& c->0.target_unix_ns == self.target_unix_s->0 * 1_000_000_000
                &&& c->0.lead_ns == lead_ns
                &&& c->0.measure_before@ == self.measure_before_s * 1_000_000_000
                &&& c->0.lock_before@ == self.lock_before_s * 1_000_000_000
            },
    {
        match self.target_unix_s {
            None => None,
            Some(s) => Some(
                TargetConfig {
                    target_unix_ns: s as i128 * 1_000_000_000,
                    lead_ns,
                    measure_before: Duration::from_secs(self.measure_before_s),
                    lock_before: Duration::from_secs(self.lock_before_s),
                },
            ),
        }
    }
}

/// The windows of a new countdown lie one inside the other, with at least a second in which to
/// lock: those that do already are left as they are, and the others are widened, never narrowed.
pub proof fn the_windows_of_a_countdown_nest(
    config: TargetConfig,
    margin: Duration,
    m: TargetMachine,
)
    requires
        call_ensures(TargetMachine::new, (config, margin), m),
    ensures
        ({
            let c = m.config_spec();
            &&& m.stage_spec() == Stage::Armed
            &&& m.margin_ns() == margin@
            &&& c.zero() == config.target_unix_ns - config.lead_ns
            &&& margin@ + 1_000_000_000 <= c.lock_before@ <= c.measure_before@
            &&& config.lock_before@ <= c.lock_before@ && config.measure_before@ <= c.measure_before@
            &&& margin@ + 1_000_000_000 <= config.lock_before@ <= config.measure_before@
                ==> c.lock_before@ == config.lock_before@ && c.measure_before@
                == config.measure_before@
        }),
{
}

/// The zero of a countdown is the target less the lead, and its windows are as many seconds as
/// the file says.
pub proof fn a_file_with_a_target_counts_down_to_it(
    f: TargetFile,
    lead_ns: i128,
    c: Option<TargetConfig>,
)
    requires
        call_ensures(TargetFile::config, (&f, lead_ns), c),
    ensures
        c is Some <==> f.target_unix_s is Some,
        c matches Some(x) ==> x.zero() + lead_ns == f.target_unix_s->0 * 1_000_000_000
            && x.measure_before@ == f.measure_before_s * 1_000_000_000 && x.lock_before@
            == f.lock_before_s * 1_000_000_000,
{
}

/// A countdown is over once it is done or has been given up, and not before.
pub proof fn a_countdown_is_over_when_done_or_given_up(m: TargetMachine, over: bool)
    requires
        call_ensures(TargetMachine::is_over, (&m,), over),
    ensures
        over <==> m.stage_spec() is Done || m.stage_spec() is Aborted,
{
}

/// The middle of a list is nothing just where the list is empty, one number where its length is
/// odd, and two where it is even.
pub proof fn an_odd_list_has_one_number_in_the_middle(xs: Vec<Float64>, m: Middle)
    requires
        call_ensures(median, (&xs,), m),
    ensures
        m is Nothing <==> xs@.len() == 0,
        m is One <==> xs@.len() % 2 == 1,
        m is Two <==> xs@.len() > 0 && xs@.len() % 2 == 0,
{
    crate::float::ascending_puts_in_order(xs@);
}

} // verus!
