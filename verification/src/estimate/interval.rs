//! The interval estimator.
//!
//! It keeps the samples of a sliding window in the order of their time and decides which of
//! them a model is made from. Solving for the extremes of the polygon and fitting the line
//! that most samples agree on is floating-point work: the program does it on the integers
//! handed out here and hands the outcome back.
//!
//! Setting samples aside changes nothing that is kept: every model starts from the whole
//! window, so that a mistake made while samples were few is not remembered.

use crate::arith::fits_i128;
use crate::duration::Duration;
use crate::float::Float64;
use crate::model::{saturating_sum, ClockModel, ModelStatus, SourceKind};
use crate::source::{half_towards_zero, Sample};
use crate::time::{HostTime, Timebase};
use std::collections::VecDeque;
use vstd::prelude::*;

verus! {

#[derive(Clone, Copy, Debug, PartialEq, Eq, Structural)]
pub struct EstimatorConfig {
    /// The length of the sliding window; older samples go.
    pub window: Duration,
    /// The most samples kept; beyond it the oldest go.
    pub max_samples: usize,
    /// The prior bound on the drift rate, in parts per million.
    pub max_drift_ppm: Float64,
    /// With fewer samples a model is still converging.
    pub min_samples_for_tracking: usize,
    /// With samples over a shorter time a model is still converging.
    pub min_span_for_tracking: Duration,
    /// Added to every half-width, to cover rounding.
    pub numeric_slack_ns: u64,
}

impl Default for EstimatorConfig {
    /// Half an hour, 160 samples, 500 parts per million, four samples over five minutes, a
    /// microsecond.
    fn default() -> (c: EstimatorConfig)
        ensures
            c.window@ == 1_800_000_000_000,
            c.max_samples == 160,
            c.max_drift_ppm.bits == 0x407f_4000_0000_0000,
            c.min_samples_for_tracking == 4,
            c.min_span_for_tracking@ == 300_000_000_000,
            c.numeric_slack_ns == 1_000,
    {
        EstimatorConfig {
            window: Duration::from_secs(1_800),
            max_samples: 160,
            max_drift_ppm: Float64 { bits: 0x407f_4000_0000_0000 },
            min_samples_for_tracking: 4,
            min_span_for_tracking: Duration::from_secs(300),
            numeric_slack_ns: 1_000,
        }
    }
}

pub struct IntervalEstimator {
    source: SourceKind,
    config: EstimatorConfig,
    samples: VecDeque<Sample>,
    last_rejected: usize,
}

/// What an estimator holds.
#[verifier::ext_equal]
pub struct EstimatorView {
    pub source: SourceKind,
    pub config: EstimatorConfig,
    /// The samples of the window, the oldest first.
    pub samples: Seq<Sample>,
    /// How many samples the last model set aside.
    pub rejected: nat,
}

impl View for IntervalEstimator {
    type V = EstimatorView;

    closed spec fn view(&self) -> EstimatorView {
        EstimatorView {
            source: self.source,
            config: self.config,
            samples: self.samples@,
            rejected: self.last_rejected as nat,
        }
    }
}

/// Samples in the order of their time.
pub open spec fn ordered(s: Seq<Sample>) -> bool {
    forall|i: int, j: int| 0 <= i <= j < s.len() ==> (#[trigger] s[i]).at.0 <= (#[trigger] s[j]).at.0
}

/// A sample put in its place among others: behind all that are not later.
pub open spec fn placed(s: Seq<Sample>, x: Sample) -> Seq<Sample>
    decreases s.len(),
{
    if s.len() == 0 || s.last().at.0 <= x.at.0 {
        s.push(x)
    } else {
        placed(s.drop_last(), x).push(s.last())
    }
}

/// The samples from the first that is not before `cutoff`.
pub open spec fn not_before(s: Seq<Sample>, cutoff: HostTime) -> Seq<Sample>
    decreases s.len(),
{
    if s.len() > 0 && s[0].at.0 < cutoff.0 {
        not_before(s.drop_first(), cutoff)
    } else {
        s
    }
}

/// The last `n` samples.
pub open spec fn newest(s: Seq<Sample>, n: nat) -> Seq<Sample> {
    if s.len() <= n {
        s
    } else {
        s.skip(s.len() - n)
    }
}

/// The window after one more sample: put in its place, then cut to the window's length
/// behind the newest, then to the most samples kept.
pub open spec fn window_after(
    s: Seq<Sample>,
    x: Sample,
    config: EstimatorConfig,
    tb: Timebase,
) -> Seq<Sample> {
    let all = placed(s, x);
    let recent = not_before(all, all.last().at.earlier(config.window@, tb));
    newest(recent, config.max_samples as nat)
}

/// From the oldest sample to the newest, in nanoseconds.
pub open spec fn span_ns(s: Seq<Sample>, tb: Timebase) -> int {
    if s.len() == 0 || s.last().at.0 < s[0].at.0 {
        0
    } else {
        tb.nanos_of(s.last().at.0 - s[0].at.0)
    }
}

/// The offset that the others are counted from, to keep the numbers small: the midpoint of
/// the newest sample.
pub open spec fn theta_ref(s: Seq<Sample>) -> int {
    if s.len() == 0 {
        0
    } else {
        half_towards_zero(s.last().lo_ns + s.last().hi_ns)
    }
}

/// A sample as a band of the plane of offset and drift rate: `dt_ns` after the reference
/// point, the offset lies between `lo` and `hi`, counted from the common origin.
#[derive(Clone, Copy, Debug, PartialEq, Eq, Structural)]
pub struct Band {
    pub dt_ns: i128,
    pub lo: i128,
    pub hi: i128,
    /// The sample's midpoint, counted from the same origin.
    pub mid: i128,
}

/// The band of a sample.
pub open spec fn band_of(s: Sample, reference: HostTime, origin: int, tb: Timebase) -> Band {
    Band {
        dt_ns: (s.at.nanos(tb) - reference.nanos(tb)) as i128,
        lo: (s.lo_ns - origin) as i128,
        hi: (s.hi_ns - origin) as i128,
        mid: (half_towards_zero(s.lo_ns + s.hi_ns) - origin) as i128,
    }
}

/// The band of a sample can be written down: none of its numbers is out of range.
pub open spec fn has_band(s: Sample, origin: int) -> bool {
    &&& fits_i128(s.lo_ns + s.hi_ns)
    &&& fits_i128(s.lo_ns - origin)
    &&& fits_i128(s.hi_ns - origin)
    &&& fits_i128(half_towards_zero(s.lo_ns + s.hi_ns) - origin)
}

/// The samples that a model is to be made from, and how many were set aside.
pub struct Consensus {
    pub working: Vec<Sample>,
    pub rejected: usize,
}

/// What solving the bands of the working samples came to.
pub enum Verdict {
    /// The intersection is not empty.
    Feasible,
    /// It is empty. `residuals` holds the distance of each sample from the line that most
    /// agree on.
    Infeasible { residuals: Vec<Float64> },
}

/// The place of the largest number, the last of them where there are several.
pub open spec fn is_last_largest(r: Seq<Float64>, i: int) -> bool {
    &&& 0 <= i < r.len()
    &&& forall|j: int| 0 <= j < r.len() ==> (#[trigger] r[j]).rank() <= r[i].rank()
    &&& forall|j: int| i < j < r.len() ==> (#[trigger] r[j]).rank() < r[i].rank()
}

/// The place of the worst of the residuals.
pub open spec fn worst_of(r: Seq<Float64>) -> int {
    choose|i: int| is_last_largest(r, i)
}

/// There is one worst residual at most.
pub proof fn one_residual_is_the_worst(r: Seq<Float64>, i: int)
    requires
        is_last_largest(r, i),
    ensures
        worst_of(r) == i,
{
    let k = worst_of(r);
    assert(is_last_largest(r, k));
    if k < i {
        assert(r[i].rank() < r[k].rank());
    }
    if i < k {
        assert(r[k].rank() < r[i].rank());
    }
}

/// What a verdict leaves of the working samples: all of them, or all but the worst.
pub open spec fn settled_once(working: Seq<Sample>, verdict: Verdict) -> Seq<Sample> {
    match verdict {
        Verdict::Feasible => working,
        Verdict::Infeasible { residuals } => if working.len() <= 1 {
            Seq::empty()
        } else {
            working.remove(worst_of(residuals@))
        },
    }
}

/// What verdicts, one after the other, leave of a window's samples.
pub open spec fn settled(samples: Seq<Sample>, verdicts: Seq<Verdict>) -> Seq<Sample>
    decreases verdicts.len(),
{
    if verdicts.len() == 0 {
        samples
    } else {
        settled_once(settled(samples, verdicts.drop_last()), verdicts.last())
    }
}

/// How many samples verdicts set aside.
pub open spec fn set_aside(verdicts: Seq<Verdict>) -> nat
    decreases verdicts.len(),
{
    if verdicts.len() == 0 {
        0
    } else {
        set_aside(verdicts.drop_last()) + (if verdicts.last() is Feasible {
            0nat
        } else {
            1nat
        })
    }
}

/// Whether verdicts can be those on a window's samples: each is on samples that are left, with
/// a residual for every one.
pub open spec fn judged(samples: Seq<Sample>, verdicts: Seq<Verdict>) -> bool
    decreases verdicts.len(),
{
    verdicts.len() == 0 || {
        let left = settled(samples, verdicts.drop_last());
        &&& judged(samples, verdicts.drop_last())
        &&& left.len() > 0
        &&& verdicts.last() matches Verdict::Infeasible { residuals } ==> residuals@.len()
            == left.len()
    }
}

/// Finds the worst of the residuals.
pub fn worst_fit(residuals: &Vec<Float64>) -> (i: usize)
    requires
        residuals@.len() > 0,
    ensures
        is_last_largest(residuals@, i as int),
{
    let mut best: usize = 0;
    let mut i: usize = 1;
    while i < residuals.len()
        invariant
            best < i <= residuals@.len(),
            forall|j: int|
                0 <= j < i ==> (#[trigger] residuals@[j]).rank() <= residuals@[best as int].rank(),
            forall|j: int|
                best < j < i ==> (#[trigger] residuals@[j]).rank() < residuals@[best as int].rank(),
        decreases residuals@.len() - i,
    {
        if !residuals[i].precedes(residuals[best]) {
            best = i;
        }
        i = i + 1;
    }
    best
}

impl Consensus {
    /// Whether these are what verdicts left of a window's samples, and the number of those that
    /// they set aside.
    pub open spec fn made_from(&self, samples: Seq<Sample>) -> bool {
        exists|verdicts: Seq<Verdict>| #[trigger]
            judged(samples, verdicts) && self.working@ == settled(samples, verdicts)
                && self.rejected == set_aside(verdicts)
    }

    /// After a verdict on the working samples. `true` where they are settled: the
    /// intersection is not empty, or no sample is left.
    ///
    /// An empty intersection costs one sample: the worst of them, or the only one.
    pub fn settle(&mut self, verdict: Verdict) -> (done: bool)
        requires
            old(self).working@.len() > 0,
            old(self).rejected < usize::MAX,
            verdict matches Verdict::Infeasible { residuals } ==> residuals@.len() == old(self).working@.len(),
        ensures
            final(self).working@ == settled_once(old(self).working@, verdict),
            verdict is Feasible ==> done && *final(self) == *old(self),
            verdict matches Verdict::Infeasible { residuals } ==> {
                &&& final(self).rejected == old(self).rejected + 1
                &&& done == (final(self).working@.len() == 0)
                &&& old(self).working@.len() == 1 ==> final(self).working@.len() == 0
                &&& old(self).working@.len() > 1 ==> exists|i: int|
                    #[trigger] is_last_largest(residuals@, i) && final(self).working@ == old(self).working@.remove(i)
            },
            final(self).working@.len() + final(self).rejected == old(self).working@.len() + old(self).rejected,
            forall|samples: Seq<Sample>|
                old(self).made_from(samples) ==> #[trigger] final(self).made_from(samples),
    {
        let ghost before = *self;
        let ghost given = verdict;
        let done: bool = match verdict {
            Verdict::Feasible => true,
            Verdict::Infeasible { residuals } => {
                if self.working.len() <= 1 {
                    self.working.clear();
                } else {
                    let worst: usize = worst_fit(&residuals);
                    proof {
                        one_residual_is_the_worst(residuals@, worst as int);
                    }
                    self.working.remove(worst);
                }
                self.rejected = self.rejected + 1;
                self.working.len() == 0
            },
        };
        proof {
            assert forall|samples: Seq<Sample>| before.made_from(samples) implies #[trigger] self.made_from(
                samples,
            ) by {
                let verdicts = choose|verdicts: Seq<Verdict>| #[trigger]
                    judged(samples, verdicts) && before.working@ == settled(samples, verdicts)
                        && before.rejected == set_aside(verdicts);
                assert(verdicts.push(given).drop_last() =~= verdicts);
                assert(judged(samples, verdicts.push(given)));
            }
        }
        done
    }

    /// The bands of the working samples about a reference point, for the solver.
    pub fn bands(&self, reference: HostTime, tb: Timebase) -> (v: Vec<Band>)
        requires
            forall|i: int|
                0 <= i < self.working@.len() ==> has_band(
                    #[trigger] self.working@[i],
                    theta_ref(self.working@),
                ),
        ensures
            v@.len() == self.working@.len(),
            forall|i: int|
                0 <= i < v@.len() ==> #[trigger] v@[i] == band_of(
                    self.working@[i],
                    reference,
                    theta_ref(self.working@),
                    tb,
                ),
    {
        let origin: i128 = origin_of(&self.working);
        let mut v: Vec<Band> = Vec::new();
        let mut i: usize = 0;
        while i < self.working.len()
            invariant
                i <= self.working@.len(),
                origin == theta_ref(self.working@),
                forall|j: int|
                    0 <= j < self.working@.len() ==> has_band(
                        #[trigger] self.working@[j],
                        theta_ref(self.working@),
                    ),
                v@.len() == i,
                forall|j: int|
                    0 <= j < i ==> #[trigger] v@[j] == band_of(
                        self.working@[j],
                        reference,
                        theta_ref(self.working@),
                        tb,
                    ),
            decreases self.working@.len() - i,
        {
            let s: Sample = self.working[i];
            assert(has_band(self.working@[i as int], theta_ref(self.working@)));
            v.push(
                Band {
                    dt_ns: s.at.signed_nanos_since(reference, tb),
                    lo: s.lo_ns - origin,
                    hi: s.hi_ns - origin,
                    mid: s.midpoint_ns() - origin,
                },
            );
            i = i + 1;
        }
        v
    }

    /// The origin that the bands are counted from.
    pub fn origin(&self) -> (o: i128)
        requires
            self.working@.len() > 0 ==> fits_i128(
                self.working@.last().lo_ns + self.working@.last().hi_ns,
            ),
        ensures
            o == theta_ref(self.working@),
    {
        origin_of(&self.working)
    }

    /// The reference point for judging the working samples: the time of the newest.
    pub fn reference(&self) -> (t: HostTime)
        requires
            self.working@.len() > 0,
        ensures
            t == self.working@.last().at,
    {
        self.working[self.working.len() - 1].at
    }
}

/// The midpoint of the newest sample, or zero without any.
fn origin_of(samples: &Vec<Sample>) -> (o: i128)
    requires
        samples@.len() > 0 ==> fits_i128(samples@.last().lo_ns + samples@.last().hi_ns),
    ensures
        o == theta_ref(samples@),
{
    if samples.len() == 0 {
        0
    } else {
        samples[samples.len() - 1].midpoint_ns()
    }
}

/// What the solver found about the offset and the drift rate, the offset counted from the
/// common origin.
#[derive(Clone, Copy, Debug, PartialEq, Eq, Structural)]
pub struct SolvedBounds {
    /// The middle of the offset's range, rounded to the nearest.
    pub mid_ns: i128,
    /// Half of its range, rounded up.
    pub half_ns: u64,
    /// The middle of the drift rate's range, seconds per second.
    pub drift: Float64,
    /// Half of its range, nanoseconds per second.
    pub growth: Float64,
}

/// The model made from samples and what was solved for them.
pub open spec fn model_from(
    view: EstimatorView,
    working: Seq<Sample>,
    now: HostTime,
    bounds: Option<SolvedBounds>,
    tb: Timebase,
) -> ClockModel {
    match bounds {
        Some(b) if working.len() > 0 => ClockModel {
            source: view.source,
            status: if working.len() < view.config.min_samples_for_tracking || span_ns(working, tb)
                < view.config.min_span_for_tracking@ {
                ModelStatus::Converging
            } else {
                ModelStatus::Tracking
            },
            reference: now,
            offset_ns: (theta_ref(working) + b.mid_ns) as i128,
            drift: b.drift,
            half_width_ns: saturating_sum(b.half_ns, view.config.numeric_slack_ns),
            half_width_growth_ns_per_s: b.growth,
        },
        _ => ClockModel {
            source: view.source,
            status: ModelStatus::Uncalibrated,
            reference: now,
            offset_ns: 0,
            drift: Float64 { bits: 0 },
            half_width_ns: u64::MAX,
            half_width_growth_ns_per_s: Float64 { bits: 0 },
        },
    }
}

impl IntervalEstimator {
    /// The samples stand in the order of their time, and are of the estimator's source.
    pub open spec fn wf(&self) -> bool {
        &&& ordered(self@.samples)
        &&& forall|i: int|
            0 <= i < self@.samples.len() ==> (#[trigger] self@.samples[i]).source == self@.source
    }

    pub fn new(source: SourceKind, config: EstimatorConfig) -> (e: IntervalEstimator)
        ensures
            e.wf(),
            e@ == (EstimatorView { source, config, samples: Seq::empty(), rejected: 0 }),
    {
        IntervalEstimator { source, config, samples: VecDeque::new(), last_rejected: 0 }
    }

    pub fn source(&self) -> (s: SourceKind)
        ensures
            s == self@.source,
    {
        self.source
    }

    pub fn len(&self) -> (n: usize)
        ensures
            n == self@.samples.len(),
    {
        self.samples.len()
    }

    pub fn is_empty(&self) -> (b: bool)
        ensures
            b == (self@.samples.len() == 0),
    {
        self.samples.len() == 0
    }

    /// How many samples the last model set aside.
    pub fn rejected(&self) -> (n: usize)
        ensures
            n == self@.rejected,
    {
        self.last_rejected
    }

    /// From the oldest sample of the window to the newest.
    pub fn span(&self, tb: Timebase) -> (d: Duration)
        ensures
            d@ == span_ns(self@.samples, tb),
    {
        let n: usize = self.samples.len();
        if n == 0 {
            Duration::zero()
        } else {
            self.samples[n - 1].at.saturating_duration_since(self.samples[0].at, tb)
        }
    }

    fn insert_sorted(&mut self, sample: Sample)
        ensures
            final(self)@ == (EstimatorView {
                samples: placed(old(self)@.samples, sample),
                ..old(self)@
            }),
    {
        let ghost before = self.samples@;
        let mut pos: usize = self.samples.len();
        proof {
            assert(before.subrange(0, pos as int) =~= before);
            assert(before.subrange(pos as int, before.len() as int) =~= Seq::empty());
            assert(placed(before, sample) =~= placed(before, sample) + Seq::empty());
        }
        while pos > 0 && self.samples[pos - 1].at.0 > sample.at.0
            invariant
                self.samples@ == before,
                pos <= before.len(),
                placed(before, sample) == placed(before.subrange(0, pos as int), sample)
                    + before.subrange(pos as int, before.len() as int),
            decreases pos,
        {
            proof {
                let front = before.subrange(0, pos as int);
                let shorter = before.subrange(0, pos - 1);
                assert(front.drop_last() =~= shorter);
                assert(placed(front, sample) == placed(shorter, sample).push(front.last()));
                assert(placed(shorter, sample).push(front.last()) + before.subrange(
                    pos as int,
                    before.len() as int,
                ) =~= placed(shorter, sample) + before.subrange(pos - 1, before.len() as int));
            }
            pos = pos - 1;
        }
        self.samples.insert(pos, sample);
        proof {
            let front = before.subrange(0, pos as int);
            if pos > 0 {
                assert(front.last() == before[pos - 1]);
            }
            assert(placed(front, sample) == front.push(sample));
            assert(self.samples@ =~= front.push(sample) + before.subrange(
                pos as int,
                before.len() as int,
            ));
        }
    }

    fn evict_old(&mut self, tb: Timebase)
        ensures
            final(self)@ == (EstimatorView {
                samples: if old(self)@.samples.len() == 0 {
                    old(self)@.samples
                } else {
                    newest(
                        not_before(
                            old(self)@.samples,
                            old(self)@.samples.last().at.earlier(old(self)@.config.window@, tb),
                        ),
                        old(self)@.config.max_samples as nat,
                    )
                },
                ..old(self)@
            }),
    {
        if self.samples.len() == 0 {
            return ;
        }
        let ghost before = self.samples@;
        let last: Sample = self.samples[self.samples.len() - 1];
        let cutoff: HostTime = last.at.minus(self.config.window, tb);
        while self.samples.len() > 0 && self.samples[0].at.0 < cutoff.0
            invariant
                self.source == old(self).source,
                self.config == old(self).config,
                self.last_rejected == old(self).last_rejected,
                not_before(self.samples@, cutoff) == not_before(before, cutoff),
            decreases self.samples@.len(),
        {
            let ghost s = self.samples@;
            self.samples.pop_front();
            assert(self.samples@ =~= s.drop_first());
        }
        let ghost recent = self.samples@;
        assert(recent == not_before(before, cutoff));
        while self.samples.len() > self.config.max_samples
            invariant
                self.source == old(self).source,
                self.config == old(self).config,
                self.last_rejected == old(self).last_rejected,
                newest(self.samples@, self.config.max_samples as nat) =~= newest(
                    recent,
                    self.config.max_samples as nat,
                ),
            decreases self.samples@.len(),
        {
            let ghost s = self.samples@;
            self.samples.pop_front();
            assert(newest(self.samples@, self.config.max_samples as nat) =~= newest(
                s,
                self.config.max_samples as nat,
            ));
        }
    }

    /// Takes in a sample of the estimator's source.
    pub fn push(&mut self, sample: Sample, tb: Timebase)
        requires
            old(self).wf(),
            sample.source == old(self)@.source,
        ensures
            final(self).wf(),
            final(self)@ == (EstimatorView {
                samples: window_after(old(self)@.samples, sample, old(self)@.config, tb),
                ..old(self)@
            }),
    {
        proof {
            lemma_placed(self@.samples, sample);
        }
        self.insert_sorted(sample);
        let ghost all = self@.samples;
        self.evict_old(tb);
        proof {
            lemma_not_before_is_a_suffix(
                all,
                all.last().at.earlier(self@.config.window@, tb),
            );
        }
    }

    /// Starts a model: all samples of the window, none set aside.
    pub fn begin(&self) -> (c: Consensus)
        ensures
            c.working@ == self@.samples,
            c.rejected == 0,
            c.made_from(self@.samples),
    {
        let mut working: Vec<Sample> = Vec::new();
        let mut i: usize = 0;
        while i < self.samples.len()
            invariant
                i <= self.samples@.len(),
                working@ == self.samples@.subrange(0, i as int),
            decreases self.samples@.len() - i,
        {
            working.push(self.samples[i]);
            proof {
                assert(working@ =~= self.samples@.subrange(0, i + 1));
            }
            i = i + 1;
        }
        proof {
            assert(self.samples@.subrange(0, i as int) =~= self.samples@);
            assert(judged(self@.samples, Seq::<Verdict>::empty()));
        }
        Consensus { working, rejected: 0 }
    }

    /// The tightest model at `now`: from the samples that agree and what was solved for their
    /// bands about `now`. Without a sample or a solution the model is uncalibrated.
    ///
    /// The samples of the window stay as they are, and no more of them were set aside than there
    /// are.
    pub fn model(
        &mut self,
        consensus: &Consensus,
        now: HostTime,
        bounds: Option<SolvedBounds>,
        tb: Timebase,
    ) -> (m: ClockModel)
        requires
            consensus.made_from(old(self)@.samples),
            consensus.working@.len() > 0 ==> fits_i128(
                consensus.working@.last().lo_ns + consensus.working@.last().hi_ns,
            ),
            bounds matches Some(b) ==> fits_i128(theta_ref(consensus.working@) + b.mid_ns),
        ensures
            m == model_from(old(self)@, consensus.working@, now, bounds, tb),
            final(self)@ == (EstimatorView { rejected: consensus.rejected as nat, ..old(self)@ }),
            final(self)@.rejected <= final(self)@.samples.len(),
    {
        proof {
            let verdicts = choose|verdicts: Seq<Verdict>| #[trigger]
                judged(self@.samples, verdicts) && consensus.working@ == settled(
                    self@.samples,
                    verdicts,
                ) && consensus.rejected == set_aside(verdicts);
            lemma_settled_or_set_aside(self@.samples, verdicts);
        }
        self.last_rejected = consensus.rejected;
        let n: usize = consensus.working.len();
        if n == 0 {
            return ClockModel::uncalibrated(self.source, now);
        }
        match bounds {
            None => ClockModel::uncalibrated(self.source, now),
            Some(b) => {
                let span: Duration = consensus.working[n - 1].at.saturating_duration_since(
                    consensus.working[0].at,
                    tb,
                );
                let status: ModelStatus = if n < self.config.min_samples_for_tracking
                    || span.shorter_than(&self.config.min_span_for_tracking) {
                    ModelStatus::Converging
                } else {
                    ModelStatus::Tracking
                };
                ClockModel {
                    source: self.source,
                    status,
                    reference: now,
                    offset_ns: origin_of(&consensus.working) + b.mid_ns,
                    drift: b.drift,
                    half_width_ns: b.half_ns.saturating_add(self.config.numeric_slack_ns),
                    half_width_growth_ns_per_s: b.growth,
                }
            },
        }
    }

    /// Forgets all samples, as after a sleep.
    pub fn invalidate(&mut self)
        ensures
            final(self).wf(),
            final(self)@ == (EstimatorView { samples: Seq::empty(), rejected: 0, ..old(self)@ }),
    {
        self.samples.clear();
        self.last_rejected = 0;
        assert(self.samples@ =~= Seq::empty());
    }
}

/// Putting a sample in its place keeps the order, adds just that sample, and leaves the
/// newest last.
proof fn lemma_placed(s: Seq<Sample>, x: Sample)
    requires
        ordered(s),
    ensures
        ordered(placed(s, x)),
        placed(s, x).len() == s.len() + 1,
        placed(s, x).to_multiset() == s.to_multiset().insert(x),
        forall|i: int|
            0 <= i < placed(s, x).len() ==> (#[trigger] placed(s, x)[i] == x || s.contains(
                placed(s, x)[i],
            )),
        s.len() > 0 && s.last().at.0 > x.at.0 ==> placed(s, x).last() == s.last(),
        s.len() == 0 || s.last().at.0 <= x.at.0 ==> placed(s, x).last() == x,
        placed(s, x).last().at.0 >= x.at.0,
    decreases s.len(),
{
    broadcast use vstd::seq_lib::group_to_multiset_ensures;

    if s.len() == 0 || s.last().at.0 <= x.at.0 {
        let p = s.push(x);
        assert forall|i: int| 0 <= i < p.len() implies (#[trigger] p[i] == x || s.contains(p[i])) by {
            if i < s.len() {
                assert(s[i] == p[i]);
            }
        }
        s.to_multiset_ensures();
    } else {
        let front = s.drop_last();
        lemma_placed(front, x);
        let p = placed(front, x).push(s.last());
        assert forall|i: int, j: int| 0 <= i <= j < p.len() implies (#[trigger] p[i]).at.0 <= (
        #[trigger] p[j]).at.0 by {
            if j == p.len() - 1 && i < j {
                let e = placed(front, x)[i];
                if e != x {
                    assert(front.contains(e));
                    let k = choose|k: int| 0 <= k < front.len() && front[k] == e;
                    assert(s[k] == e);
                }
            }
        }
        assert forall|i: int| 0 <= i < p.len() implies (#[trigger] p[i] == x || s.contains(p[i])) by {
            if i < p.len() - 1 {
                let e = placed(front, x)[i];
                if e != x {
                    assert(front.contains(e));
                    let k = choose|k: int| 0 <= k < front.len() && front[k] == e;
                    assert(s[k] == e);
                }
            } else {
                assert(s[s.len() - 1] == p[i]);
            }
        }
        assert(s =~= front.push(s.last()));
        front.to_multiset_ensures();
        placed(front, x).to_multiset_ensures();
        assert(p.to_multiset() =~= s.to_multiset().insert(x));
    }
}

/// Cutting off the front leaves the rest as it is.
proof fn lemma_not_before_is_a_suffix(s: Seq<Sample>, cutoff: HostTime)
    ensures
        not_before(s, cutoff).len() <= s.len(),
        not_before(s, cutoff) == s.skip(s.len() - not_before(s, cutoff).len()),
        not_before(s, cutoff).len() > 0 ==> not_before(s, cutoff)[0].at.0 >= cutoff.0,
        s.len() > 0 && s.last().at.0 >= cutoff.0 ==> not_before(s, cutoff).len() > 0,
        forall|i: int|
            0 <= i < s.len() - not_before(s, cutoff).len() ==> (#[trigger] s[i]).at.0 < cutoff.0,
    decreases s.len(),
{
    if s.len() > 0 && s[0].at.0 < cutoff.0 {
        let rest = s.drop_first();
        lemma_not_before_is_a_suffix(rest, cutoff);
        let kept = not_before(rest, cutoff).len();
        assert(rest.skip(rest.len() - kept) =~= s.skip(s.len() - kept));
        assert forall|i: int| 0 <= i < s.len() - kept implies (#[trigger] s[i]).at.0 < cutoff.0 by {
            if i > 0 {
                assert(s[i] == rest[i - 1]);
            }
        }
    } else {
        assert(s.skip(0) =~= s);
    }
}

/// Nothing gets into the window but the new sample and what was there.
pub proof fn the_window_invents_nothing(
    s: Seq<Sample>,
    x: Sample,
    config: EstimatorConfig,
    tb: Timebase,
)
    requires
        ordered(s),
    ensures
        forall|i: int|
            0 <= i < window_after(s, x, config, tb).len() ==> (#[trigger] window_after(
                s,
                x,
                config,
                tb,
            )[i] == x || s.contains(window_after(s, x, config, tb)[i])),
{
    lemma_placed(s, x);
    let all = placed(s, x);
    let cutoff = all.last().at.earlier(config.window@, tb);
    lemma_not_before_is_a_suffix(all, cutoff);
    let recent = not_before(all, cutoff);
    let w = window_after(s, x, config, tb);
    assert forall|i: int| 0 <= i < w.len() implies (#[trigger] w[i] == x || s.contains(w[i])) by {
        let k = i + (recent.len() - w.len());
        assert(w[i] == recent[k]);
        assert(recent[k] == all[k + (all.len() - recent.len())]);
    }
}

/// The window is what it should be after every sample: in order, no longer than configured
/// behind the newest sample, no more samples than configured, and holding the newest.
pub proof fn the_window_holds_the_recent_samples(
    s: Seq<Sample>,
    x: Sample,
    config: EstimatorConfig,
    tb: Timebase,
)
    requires
        ordered(s),
        config.max_samples > 0,
    ensures
        ({
            let w = window_after(s, x, config, tb);
            let last = placed(s, x).last();
            &&& ordered(w)
            &&& 0 < w.len() <= config.max_samples
            &&& w.last() == last
            &&& last.at.0 >= x.at.0
            &&& forall|i: int|
                0 <= i < w.len() ==> (#[trigger] w[i]).at.0 >= last.at.earlier(
                    config.window@,
                    tb,
                ).0
        }),
{
    lemma_placed(s, x);
    let all = placed(s, x);
    let cutoff = all.last().at.earlier(config.window@, tb);
    lemma_not_before_is_a_suffix(all, cutoff);
    let recent = not_before(all, cutoff);
    assert(cutoff.0 <= all.last().at.0);
    assert(recent.last() == all.last());
    assert forall|i: int| 0 <= i < recent.len() implies (#[trigger] recent[i]).at.0 >= cutoff.0 by {
        assert(recent[0].at.0 <= recent[i].at.0);
    }
}

/// Nothing recent is lost while there is room: where the samples fit, every sample not older
/// than the window, the new one among them, is still there.
pub proof fn nothing_recent_is_lost(
    s: Seq<Sample>,
    x: Sample,
    config: EstimatorConfig,
    tb: Timebase,
    kept: Sample,
)
    requires
        ordered(s),
        s.len() < config.max_samples,
        s.contains(kept) || kept == x,
        kept.at.0 >= placed(s, x).last().at.earlier(config.window@, tb).0,
    ensures
        window_after(s, x, config, tb).contains(kept),
{
    broadcast use vstd::seq_lib::group_to_multiset_ensures;

    lemma_placed(s, x);
    let all = placed(s, x);
    let cutoff = all.last().at.earlier(config.window@, tb);
    lemma_not_before_is_a_suffix(all, cutoff);
    let recent = not_before(all, cutoff);
    s.to_multiset_ensures();
    all.to_multiset_ensures();
    assert(all.to_multiset().count(kept) > 0);
    assert(all.contains(kept));
    let k = choose|k: int| 0 <= k < all.len() && all[k] == kept;
    let cut = all.len() - recent.len();
    assert(k >= cut);
    assert(recent[k - cut] == kept);
    assert(newest(recent, config.max_samples as nat) == recent);
}

/// A straight line of offsets: θ is `start / run` at the reference point and changes by
/// `rise / run` nanoseconds for every nanosecond of host time.
pub struct Line {
    pub start: int,
    pub rise: int,
    pub run: int,
}

impl Line {
    /// The slope is within a bound, in parts per million. What a line is over is positive.
    pub open spec fn gentle(self, ppm: int) -> bool {
        &&& self.run > 0
        &&& -(self.run * ppm) <= self.rise * 1_000_000 <= self.run * ppm
    }

    /// The offset some nanoseconds after the reference point, times `run`.
    pub open spec fn scaled_at(self, dt_ns: int) -> int {
        self.start + self.rise * dt_ns
    }

    /// A line about the clock's start, taken about another point, its offsets counted from
    /// `origin`.
    pub open spec fn about(self, reference: HostTime, origin: int, tb: Timebase) -> Line {
        Line { start: self.scaled_at(reference.nanos(tb)) - self.run * origin, ..self }
    }

    /// Whether a sample is honest about a line about the clock's start: its interval holds the
    /// line's offset at its time.
    pub open spec fn is_allowed_by(self, s: Sample, tb: Timebase) -> bool {
        self.run * s.lo_ns <= self.scaled_at(s.at.nanos(tb)) <= self.run * s.hi_ns
    }
}

/// Whether a line passes through a band.
pub open spec fn passes(line: Line, b: Band) -> bool {
    line.run * b.lo <= line.scaled_at(b.dt_ns as int) <= line.run * b.hi
}

/// Whether a line agrees with every sample.
pub open spec fn agrees(
    line: Line,
    s: Seq<Sample>,
    reference: HostTime,
    origin: int,
    tb: Timebase,
) -> bool {
    forall|i: int| 0 <= i < s.len() ==> passes(line, #[trigger] band_of(s[i], reference, origin, tb))
}

/// Setting a sample aside never makes the rest disagree: a line through all bands is a line
/// through those that are left.
pub proof fn setting_aside_keeps_agreement(
    line: Line,
    s: Seq<Sample>,
    i: int,
    reference: HostTime,
    origin: int,
    tb: Timebase,
)
    requires
        0 <= i < s.len(),
        agrees(line, s, reference, origin, tb),
    ensures
        agrees(line, s.remove(i), reference, origin, tb),
{
    let r = s.remove(i);
    assert forall|j: int| 0 <= j < r.len() implies passes(
        line,
        #[trigger] band_of(r[j], reference, origin, tb),
    ) by {
        if j < i {
            assert(r[j] == s[j]);
            assert(passes(line, band_of(s[j], reference, origin, tb)));
        } else {
            assert(r[j] == s[j + 1]);
            assert(passes(line, band_of(s[j + 1], reference, origin, tb)));
        }
    }
}

/// Where every sample holds the true offset, the true line passes through every band: the
/// bands of honest samples always have a point in common.
pub proof fn honest_samples_agree(
    s: Seq<Sample>,
    reference: HostTime,
    origin: int,
    tb: Timebase,
    truth: Line,
)
    requires
        forall|i: int| 0 <= i < s.len() ==> truth.is_allowed_by(#[trigger] s[i], tb),
        forall|i: int|
            0 <= i < s.len() ==> fits_i128((#[trigger] s[i]).lo_ns - origin) && fits_i128(
                s[i].hi_ns - origin,
            ),
    ensures
        agrees(truth.about(reference, origin, tb), s, reference, origin, tb),
{
    let line = truth.about(reference, origin, tb);
    assert forall|i: int| 0 <= i < s.len() implies passes(
        line,
        #[trigger] band_of(s[i], reference, origin, tb),
    ) by {
        let b = band_of(s[i], reference, origin, tb);
        assert(truth.is_allowed_by(s[i], tb));
        assert(fits_i128(s[i].lo_ns - origin) && fits_i128(s[i].hi_ns - origin));
        assert(b.lo == s[i].lo_ns - origin);
        assert(b.hi == s[i].hi_ns - origin);
        lemma_about(truth, reference, origin, s[i].at, tb);
        vstd::arithmetic::mul::lemma_mul_is_distributive_sub(truth.run, s[i].lo_ns as int, origin);
        vstd::arithmetic::mul::lemma_mul_is_distributive_sub(truth.run, s[i].hi_ns as int, origin);
    }
}

/// A line is the same about every point.
proof fn lemma_about(truth: Line, reference: HostTime, origin: int, at: HostTime, tb: Timebase)
    ensures
        truth.about(reference, origin, tb).scaled_at(at.nanos(tb) - reference.nanos(tb))
            == truth.scaled_at(at.nanos(tb)) - truth.run * origin,
{
    vstd::arithmetic::mul::lemma_mul_is_distributive_sub(
        truth.rise,
        at.nanos(tb),
        reference.nanos(tb),
    );
}

/// Whether what was solved for covers a line at an instant `dt_ns` after `now`: the line's
/// offset there is off the middle and the drift by no more than the half-range, the slack and
/// the growth.
pub open spec fn covers(
    bounds: SolvedBounds,
    slack_ns: u64,
    terms: crate::model::DriftTerms,
    line: Line,
    dt_ns: int,
) -> bool {
    let most = line.run * (bounds.half_ns + slack_ns + terms.growth_ns);
    -most <= line.scaled_at(dt_ns) - line.run * (bounds.mid_ns + terms.drift_ns) <= most
}

/// Whether the solver's answer for the working samples is right at an instant: where any line
/// within the drift bound agrees with them, there is an answer, and it covers every such line.
pub open spec fn solved_rightly(
    bounds: Option<SolvedBounds>,
    slack_ns: u64,
    terms: crate::model::DriftTerms,
    working: Seq<Sample>,
    ppm: int,
    now: HostTime,
    at: HostTime,
    tb: Timebase,
) -> bool {
    forall|line: Line| #[trigger]
        agrees(line, working, now, theta_ref(working), tb) && line.gentle(ppm) ==> bounds is Some
            && covers(bounds->0, slack_ns, terms, line, at.nanos(tb) - now.nanos(tb))
}

/// Whether verdicts on a window's samples are right: samples that a line within the drift
/// bound agrees with are never found to disagree.
pub open spec fn judged_rightly(
    samples: Seq<Sample>,
    verdicts: Seq<Verdict>,
    ppm: int,
    tb: Timebase,
) -> bool
    decreases verdicts.len(),
{
    verdicts.len() == 0 || {
        let left = settled(samples, verdicts.drop_last());
        &&& judged_rightly(samples, verdicts.drop_last(), ppm, tb)
        &&& (exists|line: Line| #[trigger]
            agrees(line, left, left.last().at, theta_ref(left), tb) && line.gentle(ppm))
            ==> verdicts.last() is Feasible
    }
}

/// The interval that a model reports holds the truth wherever what was solved for covers it.
pub proof fn the_interval_holds_the_truth(
    view: EstimatorView,
    working: Seq<Sample>,
    now: HostTime,
    bounds: SolvedBounds,
    at: HostTime,
    tb: Timebase,
    truth: Line,
    terms: crate::model::DriftTerms,
)
    requires
        working.len() > 0,
        fits_i128(theta_ref(working) + bounds.mid_ns),
        covers(
            bounds,
            view.config.numeric_slack_ns,
            terms,
            truth.about(now, theta_ref(working), tb),
            at.nanos(tb) - now.nanos(tb),
        ),
        bounds.half_ns + view.config.numeric_slack_ns + terms.growth_ns <= u64::MAX,
    ensures
        model_from(view, working, now, Some(bounds), tb).holds_at(truth, at, terms, tb),
{
    let m = model_from(view, working, now, Some(bounds), tb);
    let origin = theta_ref(working);
    let mid = m.remote_ns(at, terms.drift_ns as int, tb);
    let half = saturating_sum(m.half_width_ns, terms.growth_ns);
    lemma_about(truth, now, origin, at, tb);
    assert(half == bounds.half_ns + view.config.numeric_slack_ns + terms.growth_ns);
    assert(mid == at.nanos(tb) + origin + bounds.mid_ns + terms.drift_ns);
    assert(truth.run * mid == truth.run * at.nanos(tb) + truth.run * origin + truth.run * (
    bounds.mid_ns + terms.drift_ns)) by (nonlinear_arith)
        requires
            mid == at.nanos(tb) + origin + bounds.mid_ns + terms.drift_ns,
    ;
    vstd::arithmetic::mul::lemma_mul_is_distributive_add(truth.run, mid, half as int);
    vstd::arithmetic::mul::lemma_mul_is_distributive_sub(truth.run, mid, half as int);
}

impl ClockModel {
    /// Whether the interval that the model reports for an instant holds the remote time there,
    /// the true offsets lying on a line about the clock's start.
    pub open spec fn holds_at(
        self,
        truth: Line,
        at: HostTime,
        terms: crate::model::DriftTerms,
        tb: Timebase,
    ) -> bool {
        let mid = self.remote_ns(at, terms.drift_ns as int, tb);
        let half = saturating_sum(self.half_width_ns, terms.growth_ns);
        truth.run * (mid - half) <= truth.run * at.nanos(tb) + truth.scaled_at(at.nanos(tb))
            <= truth.run * (mid + half)
    }
}

/// The truth is never outside the reported interval. Let the true offsets lie on one line, not
/// steeper than the drift bound, and let every sample's interval hold the offset at its time:
/// then none is set aside, the model can be used, and at every instant at which the solver's
/// answer is right, the interval that the model reports holds the true remote time.
///
/// `verdicts` are those on the samples of the window, `bounds` is what was solved for the
/// working samples about `now`, and `terms` is what the drift comes to at `at`.
pub proof fn honest_samples_keep_the_truth_inside(
    view: EstimatorView,
    truth: Line,
    ppm: int,
    verdicts: Seq<Verdict>,
    now: HostTime,
    bounds: Option<SolvedBounds>,
    at: HostTime,
    terms: crate::model::DriftTerms,
    tb: Timebase,
)
    requires
        view.samples.len() > 0,
        forall|i: int| 0 <= i < view.samples.len() ==> (#[trigger] view.samples[i]).modest(),
        truth.gentle(ppm),
        forall|i: int|
            0 <= i < view.samples.len() ==> truth.is_allowed_by(#[trigger] view.samples[i], tb),
        judged_rightly(view.samples, verdicts, ppm, tb),
        solved_rightly(
            bounds,
            view.config.numeric_slack_ns,
            terms,
            settled(view.samples, verdicts),
            ppm,
            now,
            at,
            tb,
        ),
        bounds matches Some(b) ==> fits_i128(
            theta_ref(settled(view.samples, verdicts)) + b.mid_ns,
        ) && b.half_ns + view.config.numeric_slack_ns < u64::MAX && b.half_ns
            + view.config.numeric_slack_ns + terms.growth_ns <= u64::MAX,
    ensures
        settled(view.samples, verdicts) == view.samples,
        set_aside(verdicts) == 0,
        bounds is Some,
        ({
            let m = model_from(view, settled(view.samples, verdicts), now, bounds, tb);
            m.usable() && m.holds_at(truth, at, terms, tb)
        }),
{
    lemma_honest_samples_stay(view.samples, truth, ppm, verdicts, tb);
    let origin = theta_ref(view.samples);
    modest_samples_have_bands(view.samples);
    assert forall|i: int| 0 <= i < view.samples.len() implies fits_i128(
        (#[trigger] view.samples[i]).lo_ns - origin,
    ) && fits_i128(view.samples[i].hi_ns - origin) by {
        assert(has_band(view.samples[i], origin));
    }
    honest_samples_agree(view.samples, now, origin, tb, truth);
    let line = truth.about(now, origin, tb);
    assert(agrees(line, view.samples, now, origin, tb) && line.gentle(ppm));
    the_interval_holds_the_truth(view, view.samples, now, bounds->0, at, tb, truth, terms);
}

/// Honest samples are never set aside.
proof fn lemma_honest_samples_stay(
    samples: Seq<Sample>,
    truth: Line,
    ppm: int,
    verdicts: Seq<Verdict>,
    tb: Timebase,
)
    requires
        forall|i: int| 0 <= i < samples.len() ==> (#[trigger] samples[i]).modest(),
        truth.gentle(ppm),
        forall|i: int| 0 <= i < samples.len() ==> truth.is_allowed_by(#[trigger] samples[i], tb),
        judged_rightly(samples, verdicts, ppm, tb),
    ensures
        settled(samples, verdicts) == samples,
        set_aside(verdicts) == 0,
    decreases verdicts.len(),
{
    if verdicts.len() > 0 {
        lemma_honest_samples_stay(samples, truth, ppm, verdicts.drop_last(), tb);
        let origin = theta_ref(samples);
        let reference = samples.last().at;
        modest_samples_have_bands(samples);
        assert forall|i: int| 0 <= i < samples.len() implies fits_i128(
            (#[trigger] samples[i]).lo_ns - origin,
        ) && fits_i128(samples[i].hi_ns - origin) by {
            assert(has_band(samples[i], origin));
        }
        honest_samples_agree(samples, reference, origin, tb, truth);
        let line = truth.about(reference, origin, tb);
        assert(agrees(line, samples, reference, origin, tb) && line.gentle(ppm));
    }
}

/// Samples of ordinary size all have bands, about any of them.
pub proof fn modest_samples_have_bands(s: Seq<Sample>)
    requires
        forall|i: int| 0 <= i < s.len() ==> (#[trigger] s[i]).modest(),
    ensures
        forall|i: int| 0 <= i < s.len() ==> has_band(#[trigger] s[i], theta_ref(s)),
        s.len() > 0 ==> fits_i128(s.last().lo_ns + s.last().hi_ns),
        -0x10_0000_0000_0000_0000_0000_0000 <= theta_ref(s) <= 0x10_0000_0000_0000_0000_0000_0000,
{
    if s.len() > 0 {
        assert(s.last().modest());
    }
}

/// Verdicts set aside what they take from the samples.
proof fn lemma_settled_or_set_aside(samples: Seq<Sample>, verdicts: Seq<Verdict>)
    requires
        judged(samples, verdicts),
    ensures
        settled(samples, verdicts).len() + set_aside(verdicts) == samples.len(),
    decreases verdicts.len(),
{
    if verdicts.len() > 0 {
        lemma_settled_or_set_aside(samples, verdicts.drop_last());
        if let Verdict::Infeasible { residuals } = verdicts.last() {
            lemma_some_residual_is_the_worst(residuals@);
        }
    }
}

/// What settles is among the samples of the window.
pub proof fn what_settles_is_in_the_window(samples: Seq<Sample>, verdicts: Seq<Verdict>)
    requires
        judged(samples, verdicts),
    ensures
        forall|i: int|
            0 <= i < settled(samples, verdicts).len() ==> samples.contains(
                #[trigger] settled(samples, verdicts)[i],
            ),
    decreases verdicts.len(),
{
    if verdicts.len() > 0 {
        let left = settled(samples, verdicts.drop_last());
        what_settles_is_in_the_window(samples, verdicts.drop_last());
        if let Verdict::Infeasible { residuals } = verdicts.last() {
            lemma_some_residual_is_the_worst(residuals@);
            let now = settled(samples, verdicts);
            let worst = worst_of(residuals@);
            assert forall|i: int| 0 <= i < now.len() implies samples.contains(#[trigger] now[i]) by {
                if i < worst {
                    assert(now[i] == left[i]);
                } else {
                    assert(now[i] == left[i + 1]);
                }
            }
        }
    }
}

/// Among residuals there is a worst.
proof fn lemma_some_residual_is_the_worst(r: Seq<Float64>)
    requires
        r.len() > 0,
    ensures
        is_last_largest(r, worst_of(r)),
    decreases r.len(),
{
    let last = r.len() - 1;
    if last == 0 {
        assert(is_last_largest(r, 0));
    } else {
        let front = r.drop_last();
        lemma_some_residual_is_the_worst(front);
        let k = worst_of(front);
        assert(forall|j: int| 0 <= j < last ==> r[j] == front[j]);
        if r[last].rank() >= r[k].rank() {
            assert(is_last_largest(r, last));
        } else {
            assert(is_last_largest(r, k));
        }
    }
}

/// Asking for a model leaves the samples alone, so that asking again, with the same verdicts
/// and the same solution, goes the same way: the same samples settle, as many are set aside,
/// and the model is the same. What settled and what was set aside make up the window, so no
/// more are set aside than there are; an empty window settles to nothing and has an
/// uncalibrated model, whatever was solved.
///
/// `working` starts as [`IntervalEstimator::begin`] gives it and goes from verdict to verdict
/// as [`Consensus::settle`] takes it; `after` is what [`IntervalEstimator::model`] leaves.
pub proof fn asking_twice_gives_the_same_model(
    view: EstimatorView,
    verdicts: Seq<Verdict>,
    now: HostTime,
    bounds: Option<SolvedBounds>,
    tb: Timebase,
)
    requires
        judged(view.samples, verdicts),
    ensures
        ({
            let working = settled(view.samples, verdicts);
            let m = model_from(view, working, now, bounds, tb);
            let after = EstimatorView { rejected: set_aside(verdicts), ..view };
            &&& after.samples == view.samples
            &&& judged(after.samples, verdicts)
            &&& settled(after.samples, verdicts) == working
            &&& model_from(after, settled(after.samples, verdicts), now, bounds, tb) == m
            &&& (EstimatorView { rejected: set_aside(verdicts), ..after }) == after
            &&& working.len() + after.rejected == view.samples.len()
            &&& after.rejected <= view.samples.len()
            &&& m.reference == now
            &&& working.len() == 0 ==> m.status == ModelStatus::Uncalibrated && !m.usable()
            &&& view.samples.len() == 0 ==> working.len() == 0 && after.rejected == 0
        }),
{
    lemma_settled_or_set_aside(view.samples, verdicts);
}

/// Whether verdicts leave nothing more to judge: the samples that are left agree, or none is
/// left.
pub open spec fn all_judged(samples: Seq<Sample>, verdicts: Seq<Verdict>) -> bool {
    settled(samples, verdicts).len() == 0 || verdicts.len() > 0 && verdicts.last() is Feasible
}

/// Whether verdicts are those that a solver passes on a window's samples, one after the other
/// as long as there is something to judge.
pub open spec fn passed_by(
    judge: spec_fn(Seq<Sample>) -> Verdict,
    samples: Seq<Sample>,
    verdicts: Seq<Verdict>,
) -> bool
    decreases verdicts.len(),
{
    verdicts.len() == 0 || {
        let front = verdicts.drop_last();
        &&& passed_by(judge, samples, front)
        &&& !all_judged(samples, front)
        &&& verdicts.last() == judge(settled(samples, front))
    }
}

proof fn lemma_as_many_verdicts_agree(
    judge: spec_fn(Seq<Sample>) -> Verdict,
    samples: Seq<Sample>,
    a: Seq<Verdict>,
    b: Seq<Verdict>,
)
    requires
        passed_by(judge, samples, a),
        passed_by(judge, samples, b),
        a.len() == b.len(),
    ensures
        a == b,
    decreases a.len(),
{
    if a.len() > 0 {
        lemma_as_many_verdicts_agree(judge, samples, a.drop_last(), b.drop_last());
        assert(a =~= a.drop_last().push(a.last()));
        assert(b =~= b.drop_last().push(b.last()));
    } else {
        assert(a =~= b);
    }
}

proof fn lemma_first_verdicts(
    judge: spec_fn(Seq<Sample>) -> Verdict,
    samples: Seq<Sample>,
    verdicts: Seq<Verdict>,
    n: int,
)
    requires
        passed_by(judge, samples, verdicts),
        0 <= n < verdicts.len(),
    ensures
        passed_by(judge, samples, verdicts.subrange(0, n)),
        !all_judged(samples, verdicts.subrange(0, n)),
    decreases verdicts.len(),
{
    let front = verdicts.drop_last();
    if n == verdicts.len() - 1 {
        assert(verdicts.subrange(0, n) =~= front);
    } else {
        lemma_first_verdicts(judge, samples, front, n);
        assert(verdicts.subrange(0, n) =~= front.subrange(0, n));
    }
}

/// A second model from the same window is the first one again: whatever the solver is, as long
/// as it answers by the samples and the time alone, it passes the same verdicts, as many
/// samples are set aside, and the models are equal. `first` and `second` are the verdicts of
/// the two times.
pub proof fn a_second_model_is_the_first_again(
    view: EstimatorView,
    judge: spec_fn(Seq<Sample>) -> Verdict,
    solve: spec_fn(Seq<Sample>, HostTime) -> Option<SolvedBounds>,
    first: Seq<Verdict>,
    second: Seq<Verdict>,
    now: HostTime,
    tb: Timebase,
)
    requires
        passed_by(judge, view.samples, first),
        all_judged(view.samples, first),
        passed_by(judge, view.samples, second),
        all_judged(view.samples, second),
    ensures
        ({
            let after = EstimatorView { rejected: set_aside(first), ..view };
            let (w1, w2) = (settled(view.samples, first), settled(after.samples, second));
            &&& first == second
            &&& set_aside(second) == after.rejected
            &&& model_from(after, w2, now, solve(w2, now), tb) == model_from(
                view,
                w1,
                now,
                solve(w1, now),
                tb,
            )
        }),
{
    if first.len() < second.len() {
        lemma_first_verdicts(judge, view.samples, second, first.len() as int);
        lemma_as_many_verdicts_agree(
            judge,
            view.samples,
            first,
            second.subrange(0, first.len() as int),
        );
    } else if second.len() < first.len() {
        lemma_first_verdicts(judge, view.samples, first, second.len() as int);
        lemma_as_many_verdicts_agree(
            judge,
            view.samples,
            second,
            first.subrange(0, second.len() as int),
        );
    } else {
        lemma_as_many_verdicts_agree(judge, view.samples, first, second);
    }
}

/// An estimator without samples gives an unusable model, whatever the time and whatever was
/// solved.
pub proof fn no_samples_no_model(
    view: EstimatorView,
    now: HostTime,
    bounds: Option<SolvedBounds>,
    tb: Timebase,
)
    ensures
        !model_from(view, Seq::empty(), now, bounds, tb).usable(),
        model_from(view, Seq::empty(), now, bounds, tb).status == ModelStatus::Uncalibrated,
{
}

/// A model is tracking only once there are enough samples over enough time: with fewer working
/// samples than the minimum, or with less than the minimum from the first of them to the last, it
/// is still converging, and with both it tracks.
pub proof fn tracking_takes_enough_samples_over_enough_time(
    view: EstimatorView,
    working: Seq<Sample>,
    now: HostTime,
    bounds: SolvedBounds,
    tb: Timebase,
)
    requires
        working.len() > 0,
        working[0].at.0 <= working.last().at.0,
    ensures
        ({
            let status = model_from(view, working, now, Some(bounds), tb).status;
            let lasted = tb.nanos_of(working.last().at.0 - working[0].at.0);
            &&& status == ModelStatus::Tracking ==> working.len()
                >= view.config.min_samples_for_tracking && lasted
                >= view.config.min_span_for_tracking@
            &&& working.len() < view.config.min_samples_for_tracking ==> status
                == ModelStatus::Converging
            &&& lasted < view.config.min_span_for_tracking@ ==> status == ModelStatus::Converging
            &&& working.len() >= view.config.min_samples_for_tracking && lasted
                >= view.config.min_span_for_tracking@ ==> status == ModelStatus::Tracking
        }),
{
}

/// More of the same only helps: what tracks with some samples tracks with more that begin no
/// later and end no earlier.
pub proof fn more_samples_never_end_the_tracking(
    view: EstimatorView,
    fewer: Seq<Sample>,
    more: Seq<Sample>,
    now: HostTime,
    bounds: SolvedBounds,
    tb: Timebase,
)
    requires
        0 < fewer.len() <= more.len(),
        more[0].at.0 <= fewer[0].at.0 <= fewer.last().at.0 <= more.last().at.0,
        tb.denom_spec() > 0,
        crate::arith::round_div(
            (more.last().at.0 - more[0].at.0) * tb.numer_spec(),
            tb.denom_spec() as int,
        ) <= u64::MAX,
        model_from(view, fewer, now, Some(bounds), tb).status == ModelStatus::Tracking,
    ensures
        model_from(view, more, now, Some(bounds), tb).status == ModelStatus::Tracking,
{
    let n = tb.numer_spec() as int;
    let d = tb.denom_spec() as int;
    let a = fewer.last().at.0 - fewer[0].at.0;
    let b = more.last().at.0 - more[0].at.0;
    vstd::arithmetic::mul::lemma_mul_inequality(a, b, n);
    crate::arith::lemma_product_bound(a, u64::MAX as int, n, u32::MAX as int);
    crate::arith::lemma_round_div_monotonic(a * n, b * n, d);
    crate::arith::lemma_round_div_monotonic(0, a * n, d);
    crate::arith::lemma_round_div_unique(0, d, 0);
}

/// A model says what was solved and no more: at its reference point, which is now, the offsets
/// within its half-width are those within the solved half-range and the slack of the solved
/// middle, counted from the common origin. The rates are those that were solved.
pub proof fn the_model_says_what_was_solved(
    view: EstimatorView,
    working: Seq<Sample>,
    now: HostTime,
    bounds: SolvedBounds,
    tb: Timebase,
    theta: int,
)
    requires
        working.len() > 0,
        fits_i128(theta_ref(working) + bounds.mid_ns),
        bounds.half_ns + view.config.numeric_slack_ns <= u64::MAX,
    ensures
        ({
            let m = model_from(view, working, now, Some(bounds), tb);
            let reach = bounds.half_ns + view.config.numeric_slack_ns;
            &&& m.offset_ns - m.half_width_ns <= theta <= m.offset_ns + m.half_width_ns <==> -reach
                <= theta - theta_ref(working) - bounds.mid_ns <= reach
            &&& m.offset_ns == theta_ref(working) + bounds.mid_ns
            &&& m.reference == now
            &&& m.source == view.source
            &&& m.drift == bounds.drift
            &&& m.half_width_growth_ns_per_s == bounds.growth
        }),
{
}

/// Without a solution there is no model to use, however many samples there are.
pub proof fn no_solution_no_model(view: EstimatorView, working: Seq<Sample>, now: HostTime, tb: Timebase)
    ensures
        !model_from(view, working, now, None, tb).usable(),
        model_from(view, working, now, None, tb).status == ModelStatus::Uncalibrated,
        model_from(view, working, now, None, tb).half_width_ns == u64::MAX,
{
}

/// Offsets are counted from the middle of the newest sample, which it allows.
pub proof fn the_origin_is_in_the_newest_sample(s: Seq<Sample>)
    requires
        s.len() > 0,
        s.last().lo_ns <= s.last().hi_ns,
    ensures
        s.last().lo_ns <= theta_ref(s) <= s.last().hi_ns,
        -1 <= 2 * theta_ref(s) - (s.last().lo_ns + s.last().hi_ns) <= 1,
{
}

/// A band is the sample seen from the reference point and the origin: as long after the one as
/// the sample is, its bounds and its middle as far from the other.
pub proof fn a_band_is_the_sample_seen_from_the_origin(
    s: Sample,
    reference: HostTime,
    origin: int,
    tb: Timebase,
)
    requires
        has_band(s, origin),
    ensures
        ({
            let b = band_of(s, reference, origin, tb);
            &&& b.dt_ns + reference.nanos(tb) == s.at.nanos(tb)
            &&& b.lo + origin == s.lo_ns
            &&& b.hi + origin == s.hi_ns
            &&& -1 <= 2 * (b.mid + origin) - (s.lo_ns + s.hi_ns) <= 1
        }),
{
}

/// A verdict that the samples agree changes nothing; one that they do not costs the sample that
/// fits worst, the last of those that fit as badly, and no other; an only sample goes.
pub proof fn the_worst_fit_is_set_aside(working: Seq<Sample>, verdict: Verdict)
    requires
        working.len() > 0,
        verdict matches Verdict::Infeasible { residuals } ==> residuals@.len() == working.len(),
    ensures
        verdict is Feasible ==> settled_once(working, verdict) == working,
        verdict is Infeasible && working.len() == 1 ==> settled_once(working, verdict).len() == 0,
        verdict matches Verdict::Infeasible { residuals } ==> working.len() > 1 ==> exists|i: int|
            0 <= i < working.len() && #[trigger] working.remove(i) == settled_once(working, verdict)
                && (forall|j: int|
                0 <= j < working.len() ==> (#[trigger] residuals@[j]).rank() <= residuals@[i].rank())
                && (forall|j: int|
                i < j < working.len() ==> (#[trigger] residuals@[j]).rank() < residuals@[i].rank()),
{
    if let Verdict::Infeasible { residuals } = verdict {
        lemma_some_residual_is_the_worst(residuals@);
        let i = worst_of(residuals@);
        if working.len() > 1 {
            assert(working.remove(i) == settled_once(working, verdict));
        }
    }
}

/// A sample goes behind those that are not later and before those that are, and leaves them in
/// their order.
pub proof fn a_sample_goes_behind_those_not_later(s: Seq<Sample>, x: Sample)
    requires
        ordered(s),
    ensures
        exists|k: int|
            0 <= k <= s.len() && placed(s, x) == #[trigger] s.insert(k, x) && (forall|i: int|
                0 <= i < k ==> (#[trigger] s[i]).at.0 <= x.at.0) && (forall|i: int|
                k <= i < s.len() ==> (#[trigger] s[i]).at.0 > x.at.0),
    decreases s.len(),
{
    if s.len() == 0 || s.last().at.0 <= x.at.0 {
        let k = s.len() as int;
        assert(s.insert(k, x) =~= s.push(x));
        assert forall|i: int| 0 <= i < k implies (#[trigger] s[i]).at.0 <= x.at.0 by {
            assert(s[i].at.0 <= s[s.len() - 1].at.0);
        }
        assert(placed(s, x) == s.insert(k, x));
    } else {
        let front = s.drop_last();
        assert(ordered(front)) by {
            assert(forall|i: int| 0 <= i < front.len() ==> front[i] == s[i]);
        }
        a_sample_goes_behind_those_not_later(front, x);
        let k = choose|k: int|
            0 <= k <= front.len() && placed(front, x) == #[trigger] front.insert(k, x) && (forall|
                i: int,
            |
                0 <= i < k ==> (#[trigger] front[i]).at.0 <= x.at.0) && (forall|i: int|
                k <= i < front.len() ==> (#[trigger] front[i]).at.0 > x.at.0);
        assert(front.insert(k, x).push(s.last()) =~= s.insert(k, x));
        assert forall|i: int| 0 <= i < k implies (#[trigger] s[i]).at.0 <= x.at.0 by {
            assert(front[i] == s[i]);
        }
        assert forall|i: int| k <= i < s.len() implies (#[trigger] s[i]).at.0 > x.at.0 by {
            if i < front.len() {
                assert(front[i] == s[i]);
            }
        }
        assert(placed(s, x) == s.insert(k, x));
    }
}

/// What leaves the window is the oldest, and leaves for a reason: the samples that stay are the
/// last ones in order, and each of those before them is further behind the newest than the window
/// is long, or there are as many without it as may be kept.
pub proof fn what_leaves_is_the_oldest(
    s: Seq<Sample>,
    x: Sample,
    config: EstimatorConfig,
    tb: Timebase,
)
    requires
        ordered(s),
    ensures
        ({
            let all = placed(s, x);
            let w = window_after(s, x, config, tb);
            let gone = all.len() - w.len();
            &&& 0 <= gone <= all.len()
            &&& w == all.subrange(gone, all.len() as int)
            &&& gone > 0 ==> w.len() == config.max_samples || all[gone - 1].at.0 + tb.ticks_of_span(
                config.window@,
            ) < all.last().at.0
            &&& forall|i: int|
                0 <= i < w.len() ==> (#[trigger] w[i]).at.0 + tb.ticks_of_span(config.window@)
                    >= all.last().at.0
            &&& w.len() <= config.max_samples
        }),
{
    lemma_placed(s, x);
    let all = placed(s, x);
    let cutoff = all.last().at.earlier(config.window@, tb);
    lemma_not_before_is_a_suffix(all, cutoff);
    let recent = not_before(all, cutoff);
    let w = window_after(s, x, config, tb);
    let gone = all.len() - w.len();
    assert(w =~= all.subrange(gone, all.len() as int));
    assert forall|i: int| 0 <= i < w.len() implies (#[trigger] w[i]).at.0 + tb.ticks_of_span(
        config.window@,
    ) >= all.last().at.0 by {
        assert(w[i] == all[gone + i]);
        let first = all.len() - recent.len();
        assert(recent[0] == all[first]);
        assert(all[first].at.0 <= all[gone + i].at.0);
    }
}

/// The span of samples is the time from the first to the last.
pub proof fn the_span_is_from_the_first_to_the_last(s: Seq<Sample>, tb: Timebase)
    requires
        ordered(s),
    ensures
        s.len() > 0 ==> span_ns(s, tb) == tb.nanos_of(s.last().at.0 - s[0].at.0),
        s.len() == 0 ==> span_ns(s, tb) == 0,
{
    if s.len() > 0 {
        assert(s[0].at.0 <= s[s.len() - 1].at.0);
    }
}

/// As many samples are set aside as verdicts found them to disagree.
pub proof fn each_disagreement_costs_one(verdicts: Seq<Verdict>, residuals: Vec<Float64>)
    ensures
        set_aside(Seq::<Verdict>::empty()) == 0,
        set_aside(verdicts.push(Verdict::Feasible)) == set_aside(verdicts),
        set_aside(verdicts.push(Verdict::Infeasible { residuals })) == set_aside(verdicts) + 1,
{
    assert(verdicts.push(Verdict::Feasible).drop_last() =~= verdicts);
    assert(verdicts.push(Verdict::Infeasible { residuals }).drop_last() =~= verdicts);
}

} // verus!
