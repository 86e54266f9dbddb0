//! Beats: a moment of remote time as a table of host times. The picture, the sound and the
//! glow all read the same table, so they agree because there is no second one.
//!
//! A [`BeatPlan`] is three numbers: the zero moment, the period and the count of ticks. A
//! tick lands every period before zero; the picture sets off one period before the first
//! tick, so that the ball has a whole arc to land on; after zero a tail lets the flash and
//! the glow fade.

use crate::arith::{
    fits_i128, lemma_round_div_monotonic, lemma_round_div_nearest, max_of, min_of, round_div, two64,
};
use crate::duration::{Duration, MAX_NANOS};
use crate::model::{clamp_u64, ClockModel, DriftTerms};
use crate::time::{HostTime, Timebase};
use vstd::prelude::*;

pub mod audio;

verus! {

/// How long the flash and the glow have after zero, in milliseconds.
pub const TAIL_MS: u64 = 1_500;

/// The most ticks a plan has: the sound reports onsets in the bits of a `u32`.
pub const MAX_TICKS: u32 = 32;

/// The beat table, in host time. Once made it does not change.
#[derive(Clone, Copy, Debug, PartialEq, Eq, Structural)]
pub struct BeatPlan {
    /// The moment the last tick lands.
    pub zero: HostTime,
    /// From one tick to the next.
    pub period: Duration,
    /// The number of ticks, the last one included.
    pub ticks: u32,
}

/// Where an instant falls in a beat table.
#[derive(Clone, Copy, Debug, PartialEq, Eq, Structural)]
pub struct Phase {
    /// The tick being approached or just landed, from 0; `ticks − 1` is the last.
    pub beat: u32,
    /// How far into the period the instant is. Over the period, this is the phase φ: 0 at
    /// the start of an arc, 1 at landing, and 1 for good after zero.
    pub into: Duration,
    /// The length of the period.
    pub period: Duration,
    /// The last tick is the one being approached.
    pub is_final: bool,
    /// How long ago something last landed; nothing has during the first period.
    pub since_landing: Option<Duration>,
    /// Past zero, in the tail.
    pub done: bool,
}

impl Phase {
    /// At rest before the start, looking as the first period does at φ = 0 so that the
    /// picture does not jump when it sets off.
    pub fn idle(plan: &BeatPlan) -> (p: Phase)
        ensures
            p.beat == 0,
            p.into@ == 0,
            p.period == plan.period,
            p.is_final == (plan.ticks == 1),
            p.since_landing is None,
            !p.done,
    {
        Phase {
            beat: 0,
            into: Duration::zero(),
            period: plan.period,
            is_final: plan.ticks == 1,
            since_landing: None,
            done: false,
        }
    }
}

impl BeatPlan {
    /// A plan has a tick, some time between ticks, and a whole run that fits in a span.
    pub open spec fn wf(self) -> bool {
        &&& 1 <= self.ticks
        &&& self.period@ > 0
        &&& self.period@ * self.ticks <= MAX_NANOS
    }

    /// The period is at least a millisecond; the count is between one and the most.
    pub fn new(zero: HostTime, period: Duration, ticks: u32) -> (p: BeatPlan)
        ensures
            p.zero == zero,
            p.period@ == max_of(period@, 1_000_000),
            p.ticks == min_of(max_of(ticks as int, 1), MAX_TICKS as int),
            period@ * MAX_TICKS <= MAX_NANOS ==> p.wf(),
    {
        let shown: Duration = period.longest(Duration::from_millis(1));
        let count: u32 = if ticks < 1 {
            1
        } else if ticks > MAX_TICKS {
            MAX_TICKS
        } else {
            ticks
        };
        proof {
            crate::arith::lemma_product_bound(
                count as int,
                MAX_TICKS as int,
                shown@,
                shown@,
            );
            vstd::arithmetic::mul::lemma_mul_is_commutative(count as int, shown@);
        }
        BeatPlan { zero, period: shown, ticks: count }
    }

    /// A plan whose zero is a remote moment, `elapsed_ns` host nanoseconds from the model's
    /// reference point. Later models leave it as it is.
    pub fn from_target(
        model: &ClockModel,
        elapsed_ns: i128,
        period: Duration,
        ticks: u32,
        tb: Timebase,
    ) -> (p: BeatPlan)
        requires
            fits_i128(model.reference.nanos(tb) + elapsed_ns),
        ensures
            p.zero.0 == tb.ticks_of(clamp_u64(model.reference.nanos(tb) + elapsed_ns)),
            p.period@ == max_of(period@, 1_000_000),
            p.ticks == min_of(max_of(ticks as int, 1), MAX_TICKS as int),
            period@ * MAX_TICKS <= MAX_NANOS ==> p.wf(),
    {
        BeatPlan::new(model.host_at(elapsed_ns, tb), period, ticks)
    }

    /// When tick `k` lands: as many periods before zero as ticks come after it.
    pub open spec fn landing(self, k: int, tb: Timebase) -> HostTime {
        self.zero.earlier(self.period@ * (self.ticks - 1 - k), tb)
    }

    /// When the picture sets off: a period before the first tick.
    pub open spec fn start(self, tb: Timebase) -> HostTime {
        self.zero.earlier(self.period@ * self.ticks, tb)
    }

    /// When the tail is over.
    pub open spec fn over(self, tb: Timebase) -> HostTime {
        self.zero.later(TAIL_MS * 1_000_000, tb)
    }

    /// When tick `k` lands. A `k` beyond the last tick stands for the last.
    pub fn tick_at(&self, k: u32, tb: Timebase) -> (t: HostTime)
        requires
            self.wf(),
        ensures
            t == self.landing(min_of(k as int, self.ticks - 1), tb),
    {
        let held: u32 = if k < self.ticks - 1 {
            k
        } else {
            self.ticks - 1
        };
        let after: u32 = self.ticks - 1 - held;
        proof {
            lemma_periods_fit(*self, after as int);
        }
        self.zero.minus(self.period.times(after), tb)
    }

    pub fn first_tick(&self, tb: Timebase) -> (t: HostTime)
        requires
            self.wf(),
        ensures
            t == self.landing(0, tb),
    {
        self.tick_at(0, tb)
    }

    pub fn visual_start(&self, tb: Timebase) -> (t: HostTime)
        requires
            self.wf(),
        ensures
            t == self.start(tb),
    {
        self.zero.minus(self.period.times(self.ticks), tb)
    }

    /// How long the picture runs before zero.
    pub fn visual_lead(&self) -> (d: Duration)
        requires
            self.wf(),
        ensures
            d@ == self.period@ * self.ticks,
    {
        self.period.times(self.ticks)
    }

    /// The end of the tail, and of the whole beat.
    pub fn end(&self, tb: Timebase) -> (t: HostTime)
        ensures
            t == self.over(tb),
    {
        self.zero.plus(Duration::from_millis(TAIL_MS), tb)
    }

    /// Every tick with its landing, in order.
    pub fn tick_times(&self, tb: Timebase) -> (v: Vec<(u32, HostTime)>)
        requires
            self.wf(),
        ensures
            v@.len() == self.ticks,
            forall|k: int| 0 <= k < self.ticks ==> #[trigger] v@[k] == (k as u32, self.landing(k, tb)),
    {
        let mut v: Vec<(u32, HostTime)> = Vec::new();
        let mut k: u32 = 0;
        while k < self.ticks
            invariant
                self.wf(),
                k <= self.ticks,
                v@.len() == k,
                forall|j: int| 0 <= j < k ==> #[trigger] v@[j] == (j as u32, self.landing(j, tb)),
            decreases self.ticks - k,
        {
            v.push((k, self.tick_at(k, tb)));
            k = k + 1;
        }
        v
    }

    /// The nanoseconds since the picture set off.
    pub open spec fn run_ns(self, at: HostTime, tb: Timebase) -> int {
        tb.nanos_of(at.0 - self.start(tb).0)
    }

    /// The tick that an instant before zero approaches: the whole periods since the start,
    /// in thirty-two bits, up to the last tick.
    pub open spec fn beat_at(self, at: HostTime, tb: Timebase) -> int {
        min_of(self.run_ns(at, tb) / self.period@ % 0x1_0000_0000, self.ticks - 1)
    }

    /// Whether `p` is the phase at an instant.
    pub open spec fn phase_is(self, at: HostTime, tb: Timebase, p: Option<Phase>) -> bool {
        if at.0 < self.start(tb).0 || at.0 >= self.over(tb).0 {
            p is None
        } else if at.0 >= self.zero.0 {
            &&& p is Some
            &&& p->0.beat == self.ticks - 1
            &&& p->0.into@ == self.period@
            &&& p->0.period == self.period
            &&& p->0.is_final
            &&& p->0.since_landing is Some
            &&& p->0.since_landing->0@ == tb.nanos_of(at.0 - self.zero.0)
            &&& p->0.done
        } else {
            let beat = self.beat_at(at, tb);
            let into = self.run_ns(at, tb) - beat * self.period@;
            &&& p is Some
            &&& p->0.beat == beat
            &&& p->0.into@ == into
            &&& p->0.period == self.period
            &&& p->0.is_final == (beat == self.ticks - 1)
            &&& p->0.since_landing is Some == (beat > 0)
            &&& p->0.since_landing is Some ==> p->0.since_landing->0@ == into
            &&& !p->0.done
        }
    }

    /// The phase at an instant; none before the start and after the end.
    pub fn phase_at(&self, at: HostTime, tb: Timebase) -> (p: Option<Phase>)
        requires
            self.wf(),
        ensures
            self.phase_is(at, tb, p),
    {
        let start: HostTime = self.visual_start(tb);
        if at.0 < start.0 || at.0 >= self.end(tb).0 {
            return None;
        }
        if at.0 >= self.zero.0 {
            return Some(
                Phase {
                    beat: self.ticks - 1,
                    into: self.period,
                    period: self.period,
                    is_final: true,
                    since_landing: Some(at.saturating_duration_since(self.zero, tb)),
                    done: true,
                },
            );
        }
        let elapsed: u128 = at.saturating_duration_since(start, tb).as_nanos();
        let period: u128 = self.period.as_nanos();
        let whole: u128 = elapsed / period;
        let low: u128 = whole % 0x1_0000_0000;
        let k: u32 = if low < (self.ticks - 1) as u128 {
            low as u32
        } else {
            self.ticks - 1
        };
        proof {
            assert(k <= whole);
            vstd::arithmetic::mul::lemma_mul_inequality(k as int, whole as int, period as int);
            vstd::arithmetic::div_mod::lemma_fundamental_div_mod(elapsed as int, period as int);
            vstd::arithmetic::mul::lemma_mul_is_commutative(whole as int, period as int);
            vstd::arithmetic::mul::lemma_mul_nonnegative(k as int, period as int);
        }
        let into: u128 = elapsed - k as u128 * period;
        let run: Duration = Duration::from_nanos(into as u64);
        Some(
            Phase {
                beat: k,
                into: run,
                period: self.period,
                is_final: k == self.ticks - 1,
                since_landing: if k > 0 {
                    Some(run)
                } else {
                    None
                },
                done: false,
            },
        )
    }
}

/// Any number of periods up to the whole count is a span.
proof fn lemma_periods_fit(plan: BeatPlan, n: int)
    requires
        plan.wf(),
        0 <= n <= plan.ticks,
    ensures
        0 <= plan.period@ * n <= plan.period@ * plan.ticks <= MAX_NANOS,
{
    crate::arith::lemma_product_bound(n, plan.ticks as int, plan.period@, plan.period@);
    vstd::arithmetic::mul::lemma_mul_is_commutative(n, plan.period@);
    vstd::arithmetic::mul::lemma_mul_is_commutative(plan.ticks as int, plan.period@);
}

/// The first whole second of remote time that is not before `remote`.
pub open spec fn whole_second_from(remote: int) -> int {
    if remote % 1_000_000_000 == 0 {
        remote
    } else {
        (remote / 1_000_000_000 + 1) * 1_000_000_000
    }
}

/// The first whole second of remote time not before the host instant `not_before`, in Unix
/// nanoseconds. Listening to the beat uses it to land zero where the digits turn over.
pub fn next_whole_second(
    model: &ClockModel,
    not_before: HostTime,
    terms: DriftTerms,
    tb: Timebase,
) -> (ns: i128)
    requires
        fits_i128(model.offset_ns + terms.drift_ns),
        fits_i128(model.remote_ns(not_before, terms.drift_ns as int, tb)),
        fits_i128(model.remote_ns(not_before, terms.drift_ns as int, tb) - 1_000_000_000),
        fits_i128(model.remote_ns(not_before, terms.drift_ns as int, tb) + 1_000_000_000),
    ensures
        ns == whole_second_from(model.remote_ns(not_before, terms.drift_ns as int, tb)),
{
    let r: i128 = model.estimate_at(not_before, terms, tb).remote_unix_ns;
    let cut: i128 = r % 1_000_000_000;
    let past: i128 = if cut < 0 {
        cut + 1_000_000_000
    } else {
        cut
    };
    if past == 0 {
        r
    } else {
        r - past + 1_000_000_000
    }
}

/// The next whole second is one, is not before the moment, and is less than a second off.
pub proof fn whole_second_is_the_next_one(remote: int)
    ensures
        whole_second_from(remote) % 1_000_000_000 == 0,
        remote <= whole_second_from(remote) < remote + 1_000_000_000,
{
}

/// The last tick lands at zero, and between the start and zero the landings come in order.
pub proof fn ticks_land_in_order(plan: BeatPlan, j: int, k: int, tb: Timebase)
    requires
        plan.wf(),
        tb.numer_spec() > 0,
        tb.denom_spec() > 0,
        0 <= j <= k < plan.ticks,
        round_div(
            min_of(plan.period@ * plan.ticks, u64::MAX as int) * tb.denom_spec(),
            tb.numer_spec() as int,
        ) <= u64::MAX,
    ensures
        plan.start(tb).0 <= plan.landing(j, tb).0 <= plan.landing(k, tb).0 <= plan.zero.0,
        plan.landing(plan.ticks - 1, tb) == plan.zero,
{
    let n = tb.numer_spec() as int;
    let d = tb.denom_spec() as int;
    assert(plan.period@ * 0 == 0);
    vstd::arithmetic::mul::lemma_mul_basics(d);
    assert(round_div(0, n) == 0) by {
        crate::arith::lemma_round_div_unique(0, n, 0);
    }
    assert(plan.landing(plan.ticks - 1, tb) == plan.zero);
    lemma_span_ticks_monotonic(plan, plan.ticks - 1 - k, plan.ticks - 1 - j, tb);
    lemma_span_ticks_monotonic(plan, plan.ticks - 1 - j, plan.ticks as int, tb);
    lemma_span_ticks_monotonic(plan, 0, plan.ticks - 1 - k, tb);
}

/// More periods are at least as many ticks.
proof fn lemma_span_ticks_monotonic(plan: BeatPlan, a: int, b: int, tb: Timebase)
    requires
        plan.wf(),
        tb.numer_spec() > 0,
        tb.denom_spec() > 0,
        0 <= a <= b <= plan.ticks,
        round_div(
            min_of(plan.period@ * plan.ticks, u64::MAX as int) * tb.denom_spec(),
            tb.numer_spec() as int,
        ) <= u64::MAX,
    ensures
        0 <= tb.ticks_of_span(plan.period@ * a) <= tb.ticks_of_span(plan.period@ * b),
{
    let n = tb.numer_spec() as int;
    let d = tb.denom_spec() as int;
    lemma_periods_fit(plan, a);
    lemma_periods_fit(plan, b);
    crate::arith::lemma_product_bound(a, b, plan.period@, plan.period@);
    vstd::arithmetic::mul::lemma_mul_is_commutative(a, plan.period@);
    vstd::arithmetic::mul::lemma_mul_is_commutative(b, plan.period@);
    let x = min_of(plan.period@ * a, u64::MAX as int);
    let y = min_of(plan.period@ * b, u64::MAX as int);
    let z = min_of(plan.period@ * plan.ticks, u64::MAX as int);
    vstd::arithmetic::mul::lemma_mul_inequality(0, x, d);
    vstd::arithmetic::mul::lemma_mul_inequality(x, y, d);
    vstd::arithmetic::mul::lemma_mul_inequality(y, z, d);
    lemma_round_div_monotonic(0, x * d, n);
    lemma_round_div_monotonic(x * d, y * d, n);
    lemma_round_div_monotonic(y * d, z * d, n);
    assert(round_div(0, n) == 0) by {
        crate::arith::lemma_round_div_unique(0, n, 0);
    }
}

/// From the start to zero there is always a phase: a tick of the plan, not done, final just
/// where the tick is the last, something landed just where the tick is not the first, and
/// never further into the period than the period is long.
pub proof fn phase_is_well_formed_before_zero(
    plan: BeatPlan,
    at: HostTime,
    tb: Timebase,
    p: Option<Phase>,
)
    requires
        plan.wf(),
        tb.numer_spec() > 0,
        tb.denom_spec() > 0,
        plan.phase_is(at, tb, p),
        plan.start(tb).0 <= at.0 < plan.zero.0,
    ensures
        p is Some,
        p->0.beat < plan.ticks,
        !p->0.done,
        p->0.is_final == (p->0.beat == plan.ticks - 1),
        p->0.since_landing is None == (p->0.beat == 0),
        0 <= p->0.into@ <= plan.period@,
        p->0.since_landing is Some ==> p->0.since_landing->0@ <= plan.period@,
{
    let n = tb.numer_spec() as int;
    let d = tb.denom_spec() as int;
    let period = plan.period@;
    let count = plan.ticks as int;
    let whole_span = period * count;
    lemma_periods_fit(plan, count);
    let counted = min_of(whole_span, u64::MAX as int);
    let span_ticks = plan.zero.0 - plan.start(tb).0;
    let raw_ticks = round_div(counted * d, n);
    let run_ticks = at.0 - plan.start(tb).0;
    // A wrapped count is smaller than the count itself.
    lemma_round_div_nearest(counted * d, n);
    vstd::arithmetic::mul::lemma_mul_nonnegative(counted, d);
    assert(raw_ticks >= 0) by (nonlinear_arith)
        requires
            -n < 2 * (raw_ticks * n - counted * d),
            counted * d >= 0,
            n > 0,
    ;
    assert(raw_ticks % two64() <= raw_ticks) by {
        vstd::arithmetic::div_mod::lemma_mod_decreases(raw_ticks as nat, two64() as nat);
    }
    assert(span_ticks <= raw_ticks);
    assert(run_ticks <= raw_ticks - 1);
    let raw_run = round_div(run_ticks * n, d);
    lemma_round_div_nearest(run_ticks * n, d);
    vstd::arithmetic::mul::lemma_mul_nonnegative(run_ticks, n);
    assert(raw_run >= 0) by (nonlinear_arith)
        requires
            -d < 2 * (raw_run * d - run_ticks * n),
            run_ticks * n >= 0,
            d > 0,
    ;
    assert(raw_run <= counted) by (nonlinear_arith)
        requires
            d > 0,
            n > 0,
            run_ticks <= raw_ticks - 1,
            2 * (raw_ticks * n - counted * d) <= n,
            2 * (raw_run * d - run_ticks * n) <= d,
    ;
    let run = plan.run_ns(at, tb);
    assert(run <= raw_run) by {
        vstd::arithmetic::div_mod::lemma_mod_decreases(raw_run as nat, two64() as nat);
    }
    assert(0 <= run <= whole_span);
    let q = run / period;
    vstd::arithmetic::div_mod::lemma_fundamental_div_mod(run, period);
    assert(0 <= q <= count) by (nonlinear_arith)
        requires
            period > 0,
            0 <= run <= period * count,
            run == period * q + run % period,
            0 <= run % period < period,
    ;
    assert(q % 0x1_0000_0000 == q);
    let beat = min_of(q, count - 1);
    assert(0 <= run - beat * period <= period) by (nonlinear_arith)
        requires
            period > 0,
            0 <= run <= period * count,
            run == period * q + run % period,
            0 <= run % period < period,
            0 <= q <= count,
            beat == (if q <= count - 1 {
                q
            } else {
                count - 1
            }),
    ;
}

/// Tick `k` lands as many periods before zero as ticks come after it, and the picture sets off
/// one period before the first: to the nearest tick of the clock, where the clock goes back that
/// far.
pub proof fn ticks_land_a_period_apart(plan: BeatPlan, k: int, tb: Timebase)
    requires
        plan.wf(),
        tb.numer_spec() > 0,
        tb.denom_spec() > 0,
        -1 <= k < plan.ticks,
        plan.period@ * (plan.ticks - 1 - k) <= u64::MAX,
        plan.period@ * (plan.ticks - 1 - k) * tb.denom_spec() < plan.zero.0 * tb.numer_spec(),
    ensures
        ({
            let n = tb.numer_spec() as int;
            let d = tb.denom_spec() as int;
            let before = plan.zero.0 - plan.landing(k, tb).0;
            -n <= 2 * (before * n - plan.period@ * (plan.ticks - 1 - k) * d) <= n
        }),
        k == -1 ==> plan.landing(k, tb) == plan.start(tb),
{
    let n = tb.numer_spec() as int;
    let d = tb.denom_spec() as int;
    let span = plan.period@ * (plan.ticks - 1 - k);
    lemma_periods_fit(plan, plan.ticks - 1 - k);
    lemma_round_div_nearest(span * d, n);
    let q = round_div(span * d, n);
    vstd::arithmetic::mul::lemma_mul_nonnegative(span, d);
    assert(q >= 0) by (nonlinear_arith)
        requires
            -n < 2 * (q * n - span * d),
            span * d >= 0,
            n > 0,
    ;
    let z = plan.zero.0 as int;
    assert(q <= z) by (nonlinear_arith)
        requires
            2 * (q * n - span * d) <= n,
            span * d < z * n,
            n > 0,
    ;
    assert(tb.ticks_of_span(span) == q);
}

/// A tick more at the front changes none of the others: it lands where the picture would have
/// set off without it.
pub proof fn a_tick_more_leaves_the_others(plan: BeatPlan, k: int, tb: Timebase)
    requires
        plan.ticks < u32::MAX,
        0 <= k < plan.ticks,
    ensures
        ({
            let longer = BeatPlan { ticks: (plan.ticks + 1) as u32, ..plan };
            &&& longer.landing(k + 1, tb) == plan.landing(k, tb)
            &&& longer.landing(0, tb) == plan.start(tb)
            &&& longer.over(tb) == plan.over(tb)
        }),
{
}

/// The phase tells where in the run an instant is: the periods before the tick and the way into
/// its own make up the time since the start, and only the last tick's period can be full.
pub proof fn the_phase_adds_up_to_the_run(
    plan: BeatPlan,
    at: HostTime,
    tb: Timebase,
    p: Option<Phase>,
)
    requires
        plan.wf(),
        plan.ticks <= MAX_TICKS,
        tb.numer_spec() > 0,
        tb.denom_spec() > 0,
        plan.phase_is(at, tb, p),
        plan.start(tb).0 <= at.0 < plan.zero.0,
    ensures
        p is Some,
        p->0.beat * plan.period@ + p->0.into@ == tb.nanos_of(at.0 - plan.start(tb).0),
        p->0.beat < plan.ticks - 1 ==> p->0.into@ < plan.period@,
        p->0.since_landing matches Some(s) ==> s@ == p->0.into@,
{
    phase_is_well_formed_before_zero(plan, at, tb, p);
    let run = plan.run_ns(at, tb);
    let period = plan.period@;
    vstd::arithmetic::div_mod::lemma_fundamental_div_mod(run, period);
    let q = run / period;
    vstd::arithmetic::div_mod::lemma_div_pos_is_pos(run, period);
    let beat = p->0.beat as int;
    vstd::arithmetic::mul::lemma_mul_is_commutative(q, period);
    if beat < plan.ticks - 1 {
        assert(q % 0x1_0000_0000 == beat);
        let turns = q / 0x1_0000_0000;
        assert(q == turns * 0x1_0000_0000 + beat);
        assert(turns == 0) by {
            if turns > 0 {
                assert(q >= 0x1_0000_0000);
                assert(run - beat * period > period) by (nonlinear_arith)
                    requires
                        run >= q * period,
                        q >= 0x1_0000_0000,
                        beat < 32,
                        period > 0,
                ;
            }
        }
    }
}

/// From zero on the last tick has landed, for a second and a half; before the start and after the
/// end there is no phase.
pub proof fn the_tail_counts_from_zero(plan: BeatPlan, at: HostTime, tb: Timebase, p: Option<Phase>)
    requires
        plan.wf(),
        plan.phase_is(at, tb, p),
    ensures
        at.0 < plan.start(tb).0 || at.0 >= plan.zero.later(1_500_000_000, tb).0 <==> p is None,
        at.0 >= plan.zero.0 && p is Some ==> {
            &&& p->0.done
            &&& p->0.is_final
            &&& p->0.beat == plan.ticks - 1
            &&& p->0.into@ == plan.period@
            &&& p->0.since_landing is Some
            &&& p->0.since_landing->0@ == tb.nanos_of(at.0 - plan.zero.0)
        },
        at.0 < plan.zero.0 && p is Some ==> !p->0.done,
{
}

/// A plan ends where it is told to, has the period and the ticks that were asked for, and comes
/// no closer than a millisecond to the period and one to thirty-two ticks.
pub proof fn a_plan_keeps_what_was_asked(zero: HostTime, period: Duration, ticks: u32, p: BeatPlan)
    requires
        call_ensures(BeatPlan::new, (zero, period, ticks), p),
    ensures
        p.zero == zero,
        p.period@ >= 1_000_000 && 1 <= p.ticks <= 32,
        period@ >= 1_000_000 ==> p.period@ == period@,
        period@ < 1_000_000 ==> p.period@ == 1_000_000,
        1 <= ticks <= 32 ==> p.ticks == ticks,
        ticks == 0 ==> p.ticks == 1,
        ticks > 32 ==> p.ticks == 32,
{
}

/// The last tick lands on zero, whatever comes after it is taken for it, and the picture starts
/// its lead before zero.
pub proof fn the_last_tick_lands_on_zero(
    plan: BeatPlan,
    k: u32,
    tb: Timebase,
    last: HostTime,
    first: HostTime,
    start: HostTime,
    lead: Duration,
)
    requires
        k + 1 >= plan.ticks >= 1,
        call_ensures(BeatPlan::tick_at, (&plan, k, tb), last),
        call_ensures(BeatPlan::first_tick, (&plan, tb), first),
        call_ensures(BeatPlan::visual_start, (&plan, tb), start),
        call_ensures(BeatPlan::visual_lead, (&plan,), lead),
    ensures
        last == plan.zero.earlier(0, tb),
        plan.ticks == 1 ==> first == last,
        start == plan.zero.earlier(lead@ as int, tb),
        lead@ == plan.ticks * plan.period@,
{
    assert(plan.period@ * 0 == 0) by (nonlinear_arith);
    assert(plan.period@ * plan.ticks == plan.ticks * plan.period@) by (nonlinear_arith);
}

} // verus!
