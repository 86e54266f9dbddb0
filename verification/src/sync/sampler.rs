//! The sampling thread's mind.
//!
//! A cycle goes round the servers: resolve the name, send a burst, take in the answers. The
//! thread asks [`Sampler::ask`] what to do, does it, and reports how it went. At the end of
//! the cycle a model is published, unless the machine slept meanwhile, which spoils the
//! samples, or the model was frozen.

use crate::arith::{fits_i128, monus};
use crate::duration::Duration;
use crate::estimate::interval::{
    judged, model_from, modest_samples_have_bands, set_aside, settled, the_window_invents_nothing,
    theta_ref, what_settles_is_in_the_window, window_after, Consensus, EstimatorView,
    IntervalEstimator, SolvedBounds, Verdict,
};
use crate::float::Float64;
use crate::model::{ClockModel, ModelStatus, SourceKind};
use crate::source::client::QueryError;
use crate::source::ntp::Exchange;
use crate::source::udp::AddressV4;
use crate::source::Sample;
use crate::sync::settings::{copy_texts, texts, SamplerConfig, SyncSettings};
use crate::sync::sleep::SleepDetector;
use crate::sync::stats::{
    carry_over, copy_stats, fresh_stats, known_or_fresh, stats_views, ServerStats, StatsView,
    SyncStatus,
};
use crate::time::{HostTime, Timebase};
use vstd::prelude::*;
use vstd::string::*;

verus! {

/// What can be asked of the thread.
pub enum Command {
    /// Run a cycle now.
    Resample,
    /// Change the settings, then run a cycle.
    Reconfigure(SyncSettings),
}

/// How far a cycle is.
#[derive(Clone, Copy, Debug, PartialEq, Eq, Structural)]
pub enum Phase {
    /// Between cycles.
    Idle,
    /// The name of this server is to be resolved.
    Resolving(usize),
    /// This server, at this address, is to be asked.
    Bursting(usize, AddressV4),
    /// All servers have had their turn.
    Closing,
}

/// What the thread is to do next in a cycle.
#[derive(Clone, Copy, Debug, PartialEq, Eq, Structural)]
pub enum Ask {
    /// There is no cycle.
    Nothing,
    /// Resolve the name of the server with this number.
    Resolve(usize),
    /// Send so many queries, so far apart.
    Burst { server: usize, addr: AddressV4, count: usize, spacing: Duration },
    /// Read the clocks and close the cycle.
    Close,
}

/// The answer to one query and when it was looked at.
pub struct Outcome {
    pub result: Result<Exchange, QueryError>,
    pub at: HostTime,
}

/// The machine slept: for how long, and the model to show from now on. While sampling is
/// paused there is none: the frozen model stays, and the samples are gone all the same.
#[derive(Clone, Copy, Debug, PartialEq, Eq, Structural)]
pub struct Woken {
    pub slept: Duration,
    pub model: Option<ClockModel>,
}

/// How a cycle ends.
#[derive(Clone, Copy, Debug, PartialEq, Eq, Structural)]
pub enum CycleOutcome {
    /// The machine slept on the way: the samples mix before and after, all are gone, and a
    /// new cycle should start at once.
    SleptMidCycle(Woken),
    /// The model was frozen on the way: the samples stay, nothing is published.
    Withheld,
    /// A model is to be solved for and published.
    Publish,
}

impl CycleOutcome {
    /// The model that the end of a cycle brings along. One to publish is yet to be solved for.
    pub open spec fn model_handed_out(self) -> Option<ClockModel> {
        match self {
            CycleOutcome::SleptMidCycle(w) => w.model,
            CycleOutcome::Withheld | CycleOutcome::Publish => None,
        }
    }
}

/// How the thread's last turn ended.
#[derive(Clone, Copy, Debug, PartialEq, Eq, Structural)]
pub enum TurnEnd {
    Started,
    /// Frozen no more.
    Resumed,
    /// A cycle ran into sleep.
    Slept,
    /// A cycle went through.
    CycleDone,
    /// A command came, or the time between cycles was up.
    Roused,
    /// Nobody is left to give commands.
    Abandoned,
}

/// What the thread's next turn is.
#[derive(Clone, Copy, Debug, PartialEq, Eq, Structural)]
pub enum Turn {
    /// Wait for commands until the model is no longer frozen.
    WaitForResume,
    /// Put pending settings in place and run a cycle.
    Cycle,
    /// Wait for a command, at most so long.
    WaitForCommand(Duration),
    Stop,
}

/// The model after waking, before any new sample: stale, and of no use.
pub open spec fn stale_model(now: HostTime) -> ClockModel {
    ClockModel {
        source: SourceKind::Standard,
        status: ModelStatus::Stale,
        reference: now,
        offset_ns: 0,
        drift: Float64 { bits: 0 },
        half_width_ns: u64::MAX,
        half_width_growth_ns_per_s: Float64 { bits: 0 },
    }
}

/// The model to show after waking: none while sampling is paused.
pub open spec fn model_after_sleep(paused: bool, now: HostTime) -> Option<ClockModel> {
    if paused {
        None
    } else {
        Some(stale_model(now))
    }
}

/// A model with two rules laid over it: with no sample since waking it is stale, and with
/// the last success too long ago it is stale too. The numbers stay.
pub open spec fn with_staleness(
    model: ClockModel,
    now: HostTime,
    last_success: Option<HostTime>,
    stale_after_ns: int,
    woke_since_success: bool,
    tb: Timebase,
) -> ClockModel {
    let stale = match last_success {
        None => woke_since_success,
        Some(t) => t.0 <= now.0 && tb.nanos_of(now.0 - t.0) > stale_after_ns,
    };
    if stale {
        ClockModel { status: ModelStatus::Stale, ..model }
    } else {
        model
    }
}

pub fn apply_staleness(
    model: ClockModel,
    now: HostTime,
    last_success: Option<HostTime>,
    stale_after: Duration,
    woke_since_success: bool,
    tb: Timebase,
) -> (m: ClockModel)
    ensures
        m == with_staleness(model, now, last_success, stale_after@, woke_since_success, tb),
{
    let mut m: ClockModel = model;
    match last_success {
        None => {
            if woke_since_success {
                m.status = ModelStatus::Stale;
            }
        },
        Some(t) => {
            let since: Duration = now.saturating_duration_since(t, tb);
            let limit: u128 = stale_after.as_nanos();
            if since.as_nanos() > limit {
                m.status = ModelStatus::Stale;
            }
        },
    }
    m
}

/// The model to show once sampling is paused: the same numbers, frozen. A model that is of no
/// use is left as it is.
pub fn freeze(model: ClockModel) -> (m: Option<ClockModel>)
    ensures
        m == (if model.usable() {
            Some(ClockModel { status: ModelStatus::Frozen, ..model })
        } else {
            None
        }),
{
    if model.is_usable() {
        let mut frozen: ClockModel = model;
        frozen.status = ModelStatus::Frozen;
        Some(frozen)
    } else {
        None
    }
}

/// The place where everybody reads the model, and whether sampling is paused.
#[derive(Clone, Copy, Debug, PartialEq, Eq, Structural)]
pub struct ModelSlot {
    pub model: ClockModel,
    pub paused: bool,
}

impl ModelSlot {
    pub fn new(initial: ClockModel) -> (s: ModelSlot)
        ensures
            s == (ModelSlot { model: initial, paused: false }),
    {
        ModelSlot { model: initial, paused: false }
    }

    pub fn get(&self) -> (m: ClockModel)
        ensures
            m == self.model,
    {
        self.model
    }

    pub fn is_paused(&self) -> (b: bool)
        ensures
            b == self.paused,
    {
        self.paused
    }

    /// Puts a model in place.
    pub fn set(&mut self, model: ClockModel)
        ensures
            *final(self) == (ModelSlot { model, ..*old(self) }),
    {
        self.model = model;
    }

    /// The slot once a model was offered.
    pub open spec fn offered(self, model: ClockModel) -> ModelSlot {
        if self.paused {
            self
        } else {
            ModelSlot { model, ..self }
        }
    }

    /// The slot once models were offered, one after the other.
    pub open spec fn offered_all(self, models: Seq<ClockModel>) -> ModelSlot
        decreases models.len(),
    {
        if models.len() == 0 {
            self
        } else {
            self.offered_all(models.drop_last()).offered(models.last())
        }
    }

    /// Puts a model in place, unless sampling is paused. Whether it did.
    pub fn offer(&mut self, model: ClockModel) -> (taken: bool)
        ensures
            *final(self) == old(self).offered(model),
            taken == !old(self).paused,
    {
        if self.paused {
            return false;
        }
        self.set(model);
        true
    }

    /// The slot once sampling is paused.
    pub open spec fn frozen(self) -> ModelSlot {
        ModelSlot {
            model: if self.model.usable() {
                ClockModel { status: ModelStatus::Frozen, ..self.model }
            } else {
                self.model
            },
            paused: true,
        }
    }

    /// Pauses sampling and freezes the model at once: whoever reads from now on reads this one,
    /// until [`resume`](Self::resume).
    pub fn pause(&mut self)
        ensures
            *final(self) == old(self).frozen(),
    {
        self.paused = true;
        match freeze(self.model) {
            Some(model) => self.set(model),
            None => {},
        }
    }

    /// Lets models in again. The frozen one stays until the next comes.
    pub fn resume(&mut self)
        ensures
            *final(self) == (ModelSlot { paused: false, ..*old(self) }),
    {
        self.paused = false;
    }
}

/// The phase for the server numbered `i` of `n`, or the end.
pub open spec fn phase_for(i: int, n: nat) -> Phase {
    if i < n {
        Phase::Resolving(i as usize)
    } else {
        Phase::Closing
    }
}

/// An estimator after the answers of a burst: every success goes in, in order.
pub open spec fn estimator_after(v: EstimatorView, results: Seq<Outcome>, tb: Timebase) -> EstimatorView
    decreases results.len(),
{
    if results.len() == 0 {
        v
    } else {
        let front = estimator_after(v, results.drop_last(), tb);
        match results.last().result {
            Ok(ex) => EstimatorView {
                samples: window_after(front.samples, ex.sample, front.config, tb),
                ..front
            },
            Err(_) => front,
        }
    }
}

/// A server after the answers of a burst.
pub open spec fn stats_after(v: StatsView, results: Seq<Outcome>) -> StatsView
    decreases results.len(),
{
    if results.len() == 0 {
        v
    } else {
        stats_after(v, results.drop_last()).after(results.last().result, results.last().at)
    }
}

/// The time of the last success after the answers of a burst.
pub open spec fn success_after(last: Option<HostTime>, results: Seq<Outcome>) -> Option<HostTime>
    decreases results.len(),
{
    if results.len() == 0 {
        last
    } else {
        match results.last().result {
            Ok(ex) => Some(ex.sample.at),
            Err(_) => success_after(last, results.drop_last()),
        }
    }
}

/// Whether any answer of a burst was a success.
pub open spec fn any_success(results: Seq<Outcome>) -> bool {
    exists|i: int| 0 <= i < results.len() && (#[trigger] results[i]).result is Ok
}

/// The state of the sampling thread.
pub struct Sampler {
    pub config: SamplerConfig,
    pub estimator: IntervalEstimator,
    pub sleep: SleepDetector,
    /// One entry per server of the configuration, in its order.
    pub stats: Vec<ServerStats>,
    /// Settings that came and are not in place yet.
    pub pending: Option<SyncSettings>,
    pub round: u64,
    /// The time of the last successful sample.
    pub last_success: Option<HostTime>,
    /// No sample has come since the machine woke.
    pub woke_since_success: bool,
    pub phase: Phase,
}

/// Samples of ordinary size.
pub open spec fn all_modest(s: Seq<Sample>) -> bool {
    forall|i: int| 0 <= i < s.len() ==> (#[trigger] s[i]).modest()
}

/// An answer that a sampler can take in.
pub open spec fn takeable(o: Outcome) -> bool {
    o.result matches Ok(ex) ==> ex.sample.modest() && ex.sample.source == SourceKind::Standard
}

impl Sampler {
    pub open spec fn wf(&self) -> bool {
        &&& self.estimator.wf()
        &&& self.estimator@.source == SourceKind::Standard
        &&& all_modest(self.estimator@.samples)
        &&& self.stats@.len() == self.config.servers@.len()
        &&& self.phase matches Phase::Resolving(i) ==> i < self.stats@.len()
        &&& self.phase matches Phase::Bursting(i, _) ==> i < self.stats@.len()
    }

    /// A thread that has not run yet, with the clocks as they stand.
    pub fn new(config: SamplerConfig, absolute: u64, continuous: u64, tb: Timebase) -> (s: Sampler)
        ensures
            s.wf(),
            s.config == config,
            s.estimator@ == (EstimatorView {
                source: SourceKind::Standard,
                config: config.estimator,
                samples: Seq::empty(),
                rejected: 0,
            }),
            s.sleep.last_gap == monus(continuous as int, absolute as int),
            s.sleep.threshold_ticks == tb.ticks_of_span(config.sleep_threshold@),
            stats_views(s.stats@) == texts(config.servers@).map_values(
                |h: Seq<char>| StatsView::fresh(h),
            ),
            s.pending is None,
            s.round == 0,
            s.last_success is None,
            !s.woke_since_success,
            s.phase == Phase::Idle,
    {
        let stats: Vec<ServerStats> = fresh_stats(&config.servers);
        proof {
            assert(stats_views(stats@).len() == config.servers@.len());
        }
        Sampler {
            estimator: IntervalEstimator::new(SourceKind::Standard, config.estimator),
            sleep: SleepDetector::new(config.sleep_threshold, absolute, continuous, tb),
            stats,
            pending: None,
            round: 0,
            last_success: None,
            woke_since_success: false,
            phase: Phase::Idle,
            config,
        }
    }

    /// What to do next in a cycle.
    pub open spec fn asks(&self) -> Ask {
        match self.phase {
            Phase::Idle => Ask::Nothing,
            Phase::Resolving(i) => Ask::Resolve(i),
            Phase::Bursting(server, addr) => Ask::Burst {
                server,
                addr,
                count: self.config.burst,
                spacing: self.config.spacing,
            },
            Phase::Closing => Ask::Close,
        }
    }

    pub fn ask(&self) -> (a: Ask)
        ensures
            a == self.asks(),
    {
        match self.phase {
            Phase::Idle => Ask::Nothing,
            Phase::Resolving(i) => Ask::Resolve(i),
            Phase::Bursting(server, addr) => Ask::Burst {
                server,
                addr,
                count: self.config.burst,
                spacing: self.config.spacing,
            },
            Phase::Closing => Ask::Close,
        }
    }

    /// What the thread's next turn is, after how the last one ended.
    pub fn next_turn(&self, end: TurnEnd, paused: bool) -> (t: Turn)
        ensures
            t == (match end {
                TurnEnd::Abandoned => Turn::Stop,
                TurnEnd::CycleDone => Turn::WaitForCommand(self.config.cycle),
                TurnEnd::Resumed => Turn::Cycle,
                _ => if paused {
                    Turn::WaitForResume
                } else {
                    Turn::Cycle
                },
            }),
    {
        match end {
            TurnEnd::Abandoned => Turn::Stop,
            TurnEnd::CycleDone => Turn::WaitForCommand(self.config.cycle),
            TurnEnd::Resumed => Turn::Cycle,
            _ => if paused {
                Turn::WaitForResume
            } else {
                Turn::Cycle
            },
        }
    }

    /// Takes in a command. Of several settings the last counts.
    pub fn absorb(&mut self, command: Command)
        requires
            old(self).wf(),
        ensures
            final(self).wf(),
            final(self).pending == (match command {
                Command::Resample => old(self).pending,
                Command::Reconfigure(s) => Some(s),
            }),
            final(self).config == old(self).config,
            final(self).estimator == old(self).estimator,
            final(self).sleep == old(self).sleep,
            final(self).stats == old(self).stats,
            final(self).round == old(self).round,
            final(self).last_success == old(self).last_success,
            final(self).woke_since_success == old(self).woke_since_success,
            final(self).phase == old(self).phase,
    {
        match command {
            Command::Resample => {},
            Command::Reconfigure(settings) => {
                self.pending = Some(settings);
            },
        }
    }

    /// Puts pending settings in place, between cycles. What is known of servers that stay on
    /// the list stays known; the samples stay and age. The new server names, where there
    /// were settings.
    pub fn apply_pending(&mut self) -> (servers: Option<Vec<String>>)
        requires
            old(self).wf(),
            old(self).phase == Phase::Idle,
        ensures
            final(self).wf(),
            final(self).pending is None,
            servers is Some <==> old(self).pending is Some,
            old(self).pending is None ==> final(self).config == old(self).config && final(self).stats == old(self).stats,
            old(self).pending matches Some(s) ==> {
                &&& texts(servers->0@) == texts(s.servers@)
                &&& texts(final(self).config.servers@) == texts(s.servers@)
                &&& final(self).config.burst == s.burst
                &&& final(self).config.spacing == s.spacing
                &&& final(self).config.cycle == s.cycle
                &&& final(self).config.port == old(self).config.port
                &&& final(self).config.socket_timeout == old(self).config.socket_timeout
                &&& final(self).config.stale_after == old(self).config.stale_after
                &&& final(self).config.sleep_threshold == old(self).config.sleep_threshold
                &&& final(self).config.estimator == old(self).config.estimator
                &&& stats_views(final(self).stats@) == texts(s.servers@).map_values(
                    |h: Seq<char>| known_or_fresh(stats_views(old(self).stats@), h),
                )
            },
            final(self).estimator == old(self).estimator,
            final(self).sleep == old(self).sleep,
            final(self).round == old(self).round,
            final(self).last_success == old(self).last_success,
            final(self).woke_since_success == old(self).woke_since_success,
            final(self).phase == old(self).phase,
    {
        let settings: SyncSettings = match self.pending.take() {
            Some(s) => s,
            None => {
                return None;
            },
        };
        self.config.apply(&settings);
        let mut stats: Vec<ServerStats> = Vec::new();
        let mut i: usize = 0;
        while i < settings.servers.len()
            invariant
                i <= settings.servers@.len(),
                stats@.len() == i,
                forall|j: int|
                    0 <= j < i ==> (#[trigger] stats@[j])@ == known_or_fresh(
                        stats_views(self.stats@),
                        settings.servers@[j]@,
                    ),
            decreases settings.servers@.len() - i,
        {
            stats.push(carry_over(&self.stats, &settings.servers[i]));
            i = i + 1;
        }
        proof {
            assert(stats_views(stats@) =~= texts(settings.servers@).map_values(
                |h: Seq<char>| known_or_fresh(stats_views(self.stats@), h),
            ));
            assert(texts(self.config.servers@).len() == texts(settings.servers@).len());
        }
        self.stats = stats;
        Some(settings.servers)
    }

    /// Forgets the samples after a sleep.
    fn invalidate_after_sleep(&mut self, slept: Duration, paused: bool, now: HostTime) -> (w: Woken)
        ensures
            w.slept == slept,
            w.model == model_after_sleep(paused, now),
            final(self).estimator.wf(),
            final(self).estimator@ == (EstimatorView {
                samples: Seq::empty(),
                rejected: 0,
                ..old(self).estimator@
            }),
            final(self).last_success is None,
            final(self).woke_since_success,
            final(self).config == old(self).config,
            final(self).sleep == old(self).sleep,
            final(self).stats == old(self).stats,
            final(self).pending == old(self).pending,
            final(self).round == old(self).round,
            final(self).phase == old(self).phase,
    {
        self.estimator.invalidate();
        self.last_success = None;
        self.woke_since_success = true;
        if paused {
            return Woken { slept, model: None };
        }
        let mut model: ClockModel = ClockModel::uncalibrated(SourceKind::Standard, now);
        model.status = ModelStatus::Stale;
        Woken { slept, model: Some(model) }
    }

    /// Starts a cycle. Where the machine slept since the last one, the samples are gone and
    /// the model to show comes back, unless sampling is paused.
    pub fn start_cycle(
        &mut self,
        absolute: u64,
        continuous: u64,
        paused: bool,
        now: HostTime,
        tb: Timebase,
    ) -> (woken: Option<Woken>)
        requires
            old(self).wf(),
            old(self).phase == Phase::Idle,
            old(self).round < u64::MAX,
        ensures
            final(self).wf(),
            final(self).round == old(self).round + 1,
            final(self).phase == phase_for(0, old(self).config.servers@.len()),
            old(self).sleep.growth(absolute, continuous) < old(self).sleep.threshold_ticks ==> {
                &&& woken is None
                &&& final(self).estimator == old(self).estimator
                &&& final(self).sleep == old(self).sleep
                &&& final(self).last_success == old(self).last_success
                &&& final(self).woke_since_success == old(self).woke_since_success
            },
            old(self).sleep.growth(absolute, continuous) >= old(self).sleep.threshold_ticks ==> {
                &&& woken is Some
                &&& woken->0.slept@ == tb.nanos_of(old(self).sleep.growth(absolute, continuous))
                &&& woken->0.model == model_after_sleep(paused, now)
                &&& final(self).estimator@ == (EstimatorView {
                    samples: Seq::empty(),
                    rejected: 0,
                    ..old(self).estimator@
                })
                &&& final(self).sleep.last_gap == monus(continuous as int, absolute as int)
                &&& final(self).sleep.threshold_ticks == old(self).sleep.threshold_ticks
                &&& final(self).last_success is None
                &&& final(self).woke_since_success
            },
            final(self).config == old(self).config,
            final(self).stats == old(self).stats,
            final(self).pending == old(self).pending,
    {
        self.round = self.round + 1;
        let woken: Option<Woken> = match self.sleep.check(absolute, continuous, tb) {
            Some(slept) => Some(self.invalidate_after_sleep(slept, paused, now)),
            None => None,
        };
        self.phase = if self.config.servers.len() > 0 {
            Phase::Resolving(0)
        } else {
            Phase::Closing
        };
        woken
    }

    /// The phase after the server numbered `i`.
    fn phase_after(&self, i: usize) -> (p: Phase)
        requires
            i < self.stats@.len(),
            self.stats@.len() == self.config.servers@.len(),
        ensures
            p == phase_for(i + 1, self.config.servers@.len()),
    {
        if self.config.servers.len() - i > 1 {
            Phase::Resolving(i + 1)
        } else {
            Phase::Closing
        }
    }

    /// Reports how resolving a name went. A failure is put down, with the words for it, and
    /// the next server has its turn; an address is put down and the server is asked there.
    pub fn resolved(&mut self, outcome: Result<AddressV4, String>, now: HostTime)
        requires
            old(self).wf(),
            old(self).phase is Resolving,
            old(self).stats@[old(self).phase->Resolving_0 as int].failed < u64::MAX,
        ensures
            final(self).wf(),
            ({
                let i = old(self).phase->Resolving_0 as int;
                let before = stats_views(old(self).stats@);
                match outcome {
                    Ok(addr) => {
                        &&& final(self).phase == Phase::Bursting(i as usize, addr)
                        &&& stats_views(final(self).stats@) == before.update(
                            i,
                            (StatsView { addr: Some(addr), ..before[i] }),
                        )
                    },
                    Err(error) => {
                        &&& final(self).phase == phase_for(i + 1, old(self).config.servers@.len())
                        &&& stats_views(final(self).stats@) == before.update(
                            i,
                            before[i].after_failure("解析失敗："@ + error@, now),
                        )
                    },
                }
            }),
            final(self).config == old(self).config,
            final(self).estimator == old(self).estimator,
            final(self).sleep == old(self).sleep,
            final(self).pending == old(self).pending,
            final(self).round == old(self).round,
            final(self).last_success == old(self).last_success,
            final(self).woke_since_success == old(self).woke_since_success,
    {
        let i: usize = match self.phase {
            Phase::Resolving(i) => i,
            _ => 0,
        };
        let mut s: ServerStats = self.stats[i].copy();
        match outcome {
            Ok(addr) => {
                s.addr = Some(addr);
                self.phase = Phase::Bursting(i, addr);
            },
            Err(error) => {
                let mut text: String = "解析失敗：".to_owned();
                text.append(error.as_str());
                s.record_failure(text, now);
                self.phase = self.phase_after(i);
            },
        }
        let ghost new_view = s@;
        let ghost before = self.stats@;
        self.stats.set(i, s);
        proof {
            assert(stats_views(self.stats@) =~= stats_views(before).update(i as int, new_view));
        }
    }

    /// Reports the answers of a burst, in their order. Successes go into the estimator; every
    /// answer goes into the server's figures.
    pub fn burst_done(&mut self, results: &Vec<Outcome>, tb: Timebase)
        requires
            old(self).wf(),
            old(self).phase is Bursting,
            forall|i: int| 0 <= i < results@.len() ==> takeable(#[trigger] results@[i]),
            old(self).stats@[old(self).phase->Bursting_0 as int].ok + results@.len() <= u64::MAX,
            old(self).stats@[old(self).phase->Bursting_0 as int].failed + results@.len()
                <= u64::MAX,
        ensures
            final(self).wf(),
            ({
                let i = old(self).phase->Bursting_0 as int;
                let before = stats_views(old(self).stats@);
                &&& final(self).phase == phase_for(i + 1, old(self).config.servers@.len())
                &&& stats_views(final(self).stats@) == before.update(
                    i,
                    stats_after(before[i], results@),
                )
            }),
            final(self).estimator@ == estimator_after(old(self).estimator@, results@, tb),
            final(self).last_success == success_after(old(self).last_success, results@),
            final(self).woke_since_success == (old(self).woke_since_success && !any_success(
                results@,
            )),
            final(self).config == old(self).config,
            final(self).sleep == old(self).sleep,
            final(self).pending == old(self).pending,
            final(self).round == old(self).round,
    {
        let i: usize = match self.phase {
            Phase::Bursting(i, _) => i,
            _ => 0,
        };
        let mut s: ServerStats = self.stats[i].copy();
        let ghost view0 = s@;
        let mut k: usize = 0;
        proof {
            assert(results@.subrange(0, 0) =~= Seq::empty());
        }
        while k < results.len()
            invariant
                k <= results@.len(),
                forall|j: int| 0 <= j < results@.len() ==> takeable(#[trigger] results@[j]),
                self.wf(),
                i < self.stats@.len(),
                self.config == old(self).config,
                self.sleep == old(self).sleep,
                self.pending == old(self).pending,
                self.round == old(self).round,
                self.stats == old(self).stats,
                self.phase == old(self).phase,
                view0.ok + results@.len() <= u64::MAX,
                view0.failed + results@.len() <= u64::MAX,
                s@ == stats_after(view0, results@.subrange(0, k as int)),
                s.ok <= view0.ok + k,
                s.failed <= view0.failed + k,
                self.estimator@ == estimator_after(
                    old(self).estimator@,
                    results@.subrange(0, k as int),
                    tb,
                ),
                self.last_success == success_after(
                    old(self).last_success,
                    results@.subrange(0, k as int),
                ),
                self.woke_since_success == (old(self).woke_since_success && !any_success(
                    results@.subrange(0, k as int),
                )),
            decreases results@.len() - k,
        {
            let ghost shorter = results@.subrange(0, k as int);
            let ghost longer = results@.subrange(0, k + 1);
            proof {
                assert(longer.drop_last() =~= shorter);
                assert(longer.last() == results@[k as int]);
                assert(takeable(results@[k as int]));
                assert(forall|j: int| 0 <= j < k ==> #[trigger] shorter[j] == longer[j]);
                if any_success(shorter) {
                    let j = choose|j: int|
                        0 <= j < shorter.len() && (#[trigger] shorter[j]).result is Ok;
                    assert(longer[j].result is Ok);
                }
                if any_success(longer) && !(longer.last().result is Ok) {
                    let j = choose|j: int|
                        0 <= j < longer.len() && (#[trigger] longer[j]).result is Ok;
                    assert(shorter[j].result is Ok);
                }
            }
            match &results[k].result {
                Ok(ex) => {
                    let ghost held = self.estimator@;
                    proof {
                        the_window_invents_nothing(held.samples, ex.sample, held.config, tb);
                        assert(longer[k as int].result is Ok);
                    }
                    self.estimator.push(ex.sample, tb);
                    proof {
                        let w = self.estimator@.samples;
                        assert forall|j: int| 0 <= j < w.len() implies (#[trigger] w[j]).modest() by {
                            if w[j] != ex.sample {
                                assert(held.samples.contains(w[j]));
                            }
                        }
                    }
                    self.last_success = Some(ex.sample.at);
                    self.woke_since_success = false;
                },
                Err(_) => {},
            }
            s.record(&results[k].result, results[k].at);
            k = k + 1;
        }
        proof {
            assert(results@.subrange(0, k as int) =~= results@);
        }
        self.phase = self.phase_after(i);
        let ghost new_view = s@;
        let ghost before = self.stats@;
        self.stats.set(i, s);
        proof {
            assert(stats_views(self.stats@) =~= stats_views(before).update(i as int, new_view));
        }
    }

    /// Closes a cycle after every server had its turn. While sampling is paused no model comes
    /// of it: where the machine slept as well, the samples go, and the frozen model stays.
    pub fn close(
        &mut self,
        absolute: u64,
        continuous: u64,
        paused: bool,
        now: HostTime,
        tb: Timebase,
    ) -> (outcome: CycleOutcome)
        requires
            old(self).wf(),
            old(self).phase == Phase::Closing,
        ensures
            final(self).wf(),
            final(self).phase == Phase::Idle,
            old(self).sleep.growth(absolute, continuous) >= old(self).sleep.threshold_ticks ==> {
                &&& outcome matches CycleOutcome::SleptMidCycle(w)
                &&& w.slept@ == tb.nanos_of(old(self).sleep.growth(absolute, continuous))
                &&& w.model == model_after_sleep(paused, now)
                &&& final(self).estimator@ == (EstimatorView {
                    samples: Seq::empty(),
                    rejected: 0,
                    ..old(self).estimator@
                })
                &&& final(self).sleep.last_gap == monus(continuous as int, absolute as int)
                &&& final(self).sleep.threshold_ticks == old(self).sleep.threshold_ticks
                &&& final(self).last_success is None
                &&& final(self).woke_since_success
            },
            old(self).sleep.growth(absolute, continuous) < old(self).sleep.threshold_ticks ==> {
                &&& outcome == (if paused {
                    CycleOutcome::Withheld
                } else {
                    CycleOutcome::Publish
                })
                &&& final(self).estimator == old(self).estimator
                &&& final(self).sleep == old(self).sleep
                &&& final(self).last_success == old(self).last_success
                &&& final(self).woke_since_success == old(self).woke_since_success
            },
            paused ==> outcome.model_handed_out() is None && outcome != CycleOutcome::Publish,
            final(self).config == old(self).config,
            final(self).stats == old(self).stats,
            final(self).pending == old(self).pending,
            final(self).round == old(self).round,
    {
        self.phase = Phase::Idle;
        match self.sleep.check(absolute, continuous, tb) {
            Some(slept) => CycleOutcome::SleptMidCycle(self.invalidate_after_sleep(slept, paused, now)),
            None => if paused {
                CycleOutcome::Withheld
            } else {
                CycleOutcome::Publish
            },
        }
    }

    /// Makes the model to publish, from the samples that agree and what was solved for them.
    pub fn publish(
        &mut self,
        consensus: &Consensus,
        now: HostTime,
        bounds: Option<SolvedBounds>,
        tb: Timebase,
    ) -> (m: ClockModel)
        requires
            old(self).wf(),
            consensus.made_from(old(self).estimator@.samples),
            bounds matches Some(b) ==> fits_i128(theta_ref(consensus.working@) + b.mid_ns),
        ensures
            final(self).wf(),
            m == with_staleness(
                model_from(old(self).estimator@, consensus.working@, now, bounds, tb),
                now,
                old(self).last_success,
                old(self).config.stale_after@,
                old(self).woke_since_success,
                tb,
            ),
            final(self).estimator@ == (EstimatorView {
                rejected: consensus.rejected as nat,
                ..old(self).estimator@
            }),
            final(self).estimator@.rejected <= final(self).estimator@.samples.len(),
            final(self).config == old(self).config,
            final(self).sleep == old(self).sleep,
            final(self).stats == old(self).stats,
            final(self).pending == old(self).pending,
            final(self).round == old(self).round,
            final(self).last_success == old(self).last_success,
            final(self).woke_since_success == old(self).woke_since_success,
            final(self).phase == old(self).phase,
    {
        proof {
            let samples = self.estimator@.samples;
            let verdicts = choose|verdicts: Seq<Verdict>| #[trigger]
                judged(samples, verdicts) && consensus.working@ == settled(samples, verdicts)
                    && consensus.rejected == set_aside(verdicts);
            what_settles_is_in_the_window(samples, verdicts);
            assert forall|i: int| 0 <= i < consensus.working@.len() implies (
            #[trigger] consensus.working@[i]).modest() by {
                assert(samples.contains(settled(samples, verdicts)[i]));
            }
            modest_samples_have_bands(consensus.working@);
        }
        let solved: ClockModel = self.estimator.model(consensus, now, bounds, tb);
        apply_staleness(
            solved,
            now,
            self.last_success,
            self.config.stale_after,
            self.woke_since_success,
            tb,
        )
    }

    /// How things stand, for the menu.
    pub fn status(&self) -> (s: SyncStatus)
        ensures
            stats_views(s.servers@) == stats_views(self.stats@),
            s.samples == self.estimator@.samples.len(),
            s.rejected == self.estimator@.rejected,
            s.round == self.round,
            s.settings is Some,
            texts(s.settings->0.servers@) == texts(self.config.servers@),
            s.settings->0.burst == self.config.burst,
            s.settings->0.spacing == self.config.spacing,
            s.settings->0.cycle == self.config.cycle,
    {
        SyncStatus {
            servers: copy_stats(&self.stats),
            samples: self.estimator.len(),
            rejected: self.estimator.rejected(),
            round: self.round,
            settings: Some(SyncSettings::from_config(&self.config)),
        }
    }
}

/// How far along a cycle over `n` servers a phase is.
pub open spec fn cycle_progress(p: Phase, n: nat) -> int {
    match p {
        Phase::Idle => 2 * n as int + 1,
        Phase::Resolving(i) => 2 * i,
        Phase::Bursting(i, _) => 2 * i + 1,
        Phase::Closing => 2 * n as int,
    }
}

/// A cycle always moves forward, through every server once: from the start each report takes
/// it on, so it ends after at most two reports per server and one at the close.
pub proof fn a_cycle_moves_forward(i: int, n: nat, addr: AddressV4)
    requires
        0 <= i < n <= usize::MAX,
    ensures
        cycle_progress(Phase::Resolving(i as usize), n) < cycle_progress(
            Phase::Bursting(i as usize, addr),
            n,
        ),
        cycle_progress(Phase::Bursting(i as usize, addr), n) < cycle_progress(
            phase_for(i + 1, n),
            n,
        ),
        cycle_progress(Phase::Resolving(i as usize), n) < cycle_progress(phase_for(i + 1, n), n),
        cycle_progress(phase_for(i + 1, n), n) <= cycle_progress(Phase::Closing, n)
            < cycle_progress(Phase::Idle, n),
        phase_for(n as int, n) == Phase::Closing,
{
}

/// From pausing to resuming, nothing but the frozen model can be read, whatever is offered:
/// neither a cycle on its way nor waking from sleep replaces it. Pausing twice is pausing
/// once, and after resuming the next model offered is the one to read.
pub proof fn a_paused_slot_shows_the_frozen_model(
    slot: ModelSlot,
    offers: Seq<ClockModel>,
    next: ClockModel,
)
    ensures
        slot.frozen().offered_all(offers) == slot.frozen(),
        slot.frozen().offered_all(offers).frozen() == slot.frozen(),
        slot.model.usable() ==> slot.frozen().model.status == ModelStatus::Frozen,
        !slot.model.usable() ==> slot.frozen().model == slot.model,
        (ModelSlot { paused: false, ..slot.frozen().offered_all(offers) }).model
            == slot.frozen().model,
        (ModelSlot { paused: false, ..slot.frozen().offered_all(offers) }).offered(next).model
            == next,
    decreases offers.len(),
{
    if offers.len() > 0 {
        a_paused_slot_shows_the_frozen_model(slot, offers.drop_last(), next);
    }
}

/// After waking and before a new sample, whatever is published is stale; with nothing solved
/// it is of no use either.
pub proof fn nothing_usable_right_after_waking(
    model: ClockModel,
    now: HostTime,
    stale_after_ns: int,
    tb: Timebase,
)
    ensures
        with_staleness(model, now, None, stale_after_ns, true, tb).status == ModelStatus::Stale,
        model.half_width_ns == u64::MAX ==> !with_staleness(
            model,
            now,
            None,
            stale_after_ns,
            true,
            tb,
        ).usable(),
        !stale_model(now).usable(),
{
}

/// Staleness is a label: it never touches the numbers of a model, and a model that could be
/// used still can.
pub proof fn staleness_keeps_the_numbers(
    model: ClockModel,
    now: HostTime,
    last_success: Option<HostTime>,
    stale_after_ns: int,
    woke: bool,
    tb: Timebase,
)
    ensures
        ({
            let m = with_staleness(model, now, last_success, stale_after_ns, woke, tb);
            &&& m.offset_ns == model.offset_ns
            &&& m.reference == model.reference
            &&& m.drift == model.drift
            &&& m.half_width_ns == model.half_width_ns
            &&& m.half_width_growth_ns_per_s == model.half_width_growth_ns_per_s
            &&& model.usable() ==> m.usable()
        }),
{
}

/// A model is made stale just where it should be: nothing came in since the machine woke, or what
/// came in last is longer ago than the limit. A sample within the limit keeps it as it is, even
/// after waking.
pub proof fn a_model_is_stale_when_nothing_came_for_too_long(
    model: ClockModel,
    now: HostTime,
    last_success: Option<HostTime>,
    stale_after_ns: int,
    woke: bool,
    tb: Timebase,
)
    requires
        model.status != ModelStatus::Stale,
        stale_after_ns >= 0,
    ensures
        ({
            let stale = with_staleness(model, now, last_success, stale_after_ns, woke, tb).status
                == ModelStatus::Stale;
            &&& last_success is None ==> (stale <==> woke)
            &&& last_success matches Some(t) ==> t.0 <= now.0 ==> (stale <==> tb.nanos_of(
                now.0 - t.0,
            ) > stale_after_ns)
            &&& last_success matches Some(t) ==> t.0 > now.0 ==> !stale
            &&& !stale ==> with_staleness(model, now, last_success, stale_after_ns, woke, tb) == model
        }),
{
}

/// The answers of a burst are taken in one after the other: one that failed leaves the samples as
/// they are, one that succeeded is put into the window.
pub proof fn answers_come_in_one_by_one(
    v: EstimatorView,
    stats: StatsView,
    last: Option<HostTime>,
    results: Seq<Outcome>,
    o: Outcome,
    tb: Timebase,
)
    ensures
        ({
            let before = estimator_after(v, results, tb);
            let after = estimator_after(v, results.push(o), tb);
            &&& o.result is Err ==> after == before
            &&& o.result matches Ok(x) ==> after.samples == window_after(
                before.samples,
                x.sample,
                before.config,
                tb,
            ) && after.config == before.config && after.source == before.source && after.rejected
                == before.rejected
            &&& o.result is Err ==> success_after(last, results.push(o)) == success_after(
                last,
                results,
            )
            &&& o.result matches Ok(x) ==> success_after(last, results.push(o)) == Some(x.sample.at)
            &&& stats_after(stats, results.push(o)) == stats_after(stats, results).after(
                o.result,
                o.at,
            )
            &&& any_success(results.push(o)) == (any_success(results) || o.result is Ok)
        }),
        estimator_after(v, Seq::empty(), tb) == v,
        success_after(last, Seq::empty()) == last,
        stats_after(stats, Seq::empty()) == stats,
        !any_success(Seq::empty()),
{
    let longer = results.push(o);
    assert(longer.drop_last() =~= results);
    assert(longer.last() == o);
    if any_success(results) {
        let i = choose|i: int| 0 <= i < results.len() && (#[trigger] results[i]).result is Ok;
        assert(longer[i] == results[i]);
    }
    if o.result is Ok {
        assert(longer[longer.len() - 1].result is Ok);
    }
    if any_success(longer) && !(o.result is Ok) {
        let i = choose|i: int| 0 <= i < longer.len() && (#[trigger] longer[i]).result is Ok;
        assert(results[i] == longer[i]);
    }
}

/// Servers have their turns in order, and after the last the cycle closes.
pub proof fn servers_have_their_turns_in_order(i: int, n: nat)
    requires
        0 <= i <= n <= usize::MAX,
    ensures
        i < n ==> phase_for(i, n) == Phase::Resolving(i as usize),
        i == n ==> phase_for(i, n) == Phase::Closing,
{
}

/// What is asked of the thread follows from how far the cycle is: to resolve the server that is
/// on, to send it the burst that is configured, or to close.
pub proof fn the_thread_is_asked_for_what_is_on(s: Sampler)
    ensures
        s.phase == Phase::Idle <==> s.asks() == Ask::Nothing,
        s.phase == Phase::Closing <==> s.asks() == Ask::Close,
        s.phase matches Phase::Resolving(i) ==> s.asks() == Ask::Resolve(i),
        s.phase matches Phase::Bursting(i, a) ==> s.asks() matches Ask::Burst {
            server,
            addr,
            count,
            spacing,
        } && server == i && addr == a && count == s.config.burst && spacing == s.config.spacing,
{
}

/// The thread never starts a cycle while it is paused, but the one that follows a pause that has
/// just ended, and it stops once nobody is left.
pub proof fn a_paused_thread_starts_no_cycle(s: Sampler, end: TurnEnd, paused: bool, t: Turn)
    requires
        call_ensures(Sampler::next_turn, (&s, end, paused), t),
    ensures
        paused && t == Turn::Cycle ==> end == TurnEnd::Resumed,
        t == Turn::Stop <==> end == TurnEnd::Abandoned,
        t is WaitForCommand <==> end == TurnEnd::CycleDone,
        t matches Turn::WaitForCommand(d) ==> d == s.config.cycle,
        !paused && end != TurnEnd::Abandoned && end != TurnEnd::CycleDone ==> t == Turn::Cycle,
{
}

/// Freezing marks a model that can be used and changes none of its numbers.
pub proof fn freezing_keeps_the_numbers(model: ClockModel, m: Option<ClockModel>)
    requires
        call_ensures(freeze, (model,), m),
    ensures
        m is Some <==> model.usable(),
        m matches Some(f) ==> f.status == ModelStatus::Frozen && f.usable() && f.offset_ns
            == model.offset_ns && f.half_width_ns == model.half_width_ns && f.drift == model.drift
            && f.reference == model.reference,
{
}

/// A cycle that ran into sleep forgets all samples and publishes nothing; one that did not
/// publishes unless it was paused, and forgets nothing.
pub proof fn a_cycle_through_sleep_forgets_all(
    s: &mut Sampler,
    absolute: u64,
    continuous: u64,
    paused: bool,
    now: HostTime,
    tb: Timebase,
    outcome: CycleOutcome,
)
    requires
        call_ensures(Sampler::close, (s, absolute, continuous, paused, now, tb), outcome),
    ensures
        final(s).phase == Phase::Idle,
        outcome is SleptMidCycle <==> old(s).sleep.growth(absolute, continuous)
            >= old(s).sleep.threshold_ticks,
        outcome is SleptMidCycle ==> final(s).estimator@.samples.len() == 0 && final(s).estimator@.rejected == 0 && final(s).last_success is None && final(s).woke_since_success,
        outcome == CycleOutcome::Publish ==> !paused,
        outcome == CycleOutcome::Withheld ==> paused,
        !(outcome is SleptMidCycle) ==> final(s).estimator@ == old(s).estimator@,
        outcome matches CycleOutcome::SleptMidCycle(w) ==> (w.model is None <==> paused),
        outcome matches CycleOutcome::SleptMidCycle(w) ==> (w.model matches Some(m) ==> !m.usable()
            && m.status == ModelStatus::Stale),
{
}

/// A burst reports for its own server and goes on to the next; the others stay as they were.
pub proof fn a_burst_reports_for_its_own_server(
    s: &mut Sampler,
    results: Vec<Outcome>,
    tb: Timebase,
    i: usize,
    addr: AddressV4,
    j: int,
)
    requires
        call_ensures(Sampler::burst_done, (s, &results, tb), ()),
        old(s).wf(),
        old(s).phase == Phase::Bursting(i, addr),
        0 <= j < old(s).stats@.len(),
        j != i,
    ensures
        stats_views(final(s).stats@)[j] == stats_views(old(s).stats@)[j],
        i + 1 < old(s).stats@.len() ==> final(s).phase == Phase::Resolving((i + 1) as usize),
        i + 1 == old(s).stats@.len() ==> final(s).phase == Phase::Closing,
{
}

/// After a sleep nothing is claimed: the model cannot be used, no half width is larger than its,
/// and it neither drifts nor widens.
pub proof fn nothing_is_claimed_after_sleep(now: HostTime, half_width_ns: u64)
    ensures
        !stale_model(now).usable(),
        stale_model(now).status == ModelStatus::Stale,
        stale_model(now).reference == now,
        half_width_ns <= stale_model(now).half_width_ns,
        stale_model(now).drift.bits == 0,
        stale_model(now).half_width_growth_ns_per_s.bits == 0,
{
}

/// Settings that wait are taken up before a cycle, once, and leave the estimator, the sleep and
/// the round as they are.
pub proof fn waiting_settings_are_taken_up_once(s: &mut Sampler, servers: Option<Vec<String>>)
    requires
        call_ensures(Sampler::apply_pending, (s,), servers),
    ensures
        final(s).pending is None,
        servers is Some <==> old(s).pending is Some,
        old(s).pending matches Some(p) ==> final(s).config.burst == p.burst
            && final(s).config.spacing == p.spacing && final(s).config.cycle == p.cycle && texts(
            final(s).config.servers@,
        ) == texts(p.servers@),
        old(s).pending is None ==> final(s).config == old(s).config,
        final(s).config.stale_after == old(s).config.stale_after,
        final(s).config.estimator == old(s).config.estimator,
        final(s).estimator == old(s).estimator,
        final(s).round == old(s).round,
{
}

/// A cycle starts with the first server where there is one, counts one round more, and forgets
/// the samples only where the machine has slept.
pub proof fn a_cycle_starts_with_the_first_server(
    s: &mut Sampler,
    absolute: u64,
    continuous: u64,
    paused: bool,
    now: HostTime,
    tb: Timebase,
    woken: Option<Woken>,
)
    requires
        call_ensures(Sampler::start_cycle, (s, absolute, continuous, paused, now, tb), woken),
        absolute + old(s).sleep.last_gap <= continuous,
    ensures
        final(s).round == old(s).round + 1,
        old(s).config.servers@.len() > 0 ==> final(s).phase == Phase::Resolving(0),
        old(s).config.servers@.len() == 0 ==> final(s).phase == Phase::Closing,
        woken is Some <==> continuous - absolute - old(s).sleep.last_gap
            >= old(s).sleep.threshold_ticks,
        woken is Some ==> final(s).estimator@.samples.len() == 0 && final(s).estimator@.rejected
            == 0 && final(s).last_success is None && final(s).woke_since_success,
        woken is None ==> final(s).estimator == old(s).estimator && final(s).last_success
            == old(s).last_success && final(s).woke_since_success == old(s).woke_since_success,
{
}

/// An address that was found is asked next; where none was, the server is passed over with a
/// failure more, and in neither case is another server's record touched.
pub proof fn a_server_without_an_address_is_passed_over(
    s: &mut Sampler,
    outcome: Result<AddressV4, String>,
    now: HostTime,
    i: usize,
    j: int,
)
    requires
        call_ensures(Sampler::resolved, (s, outcome, now), ()),
        old(s).phase == Phase::Resolving(i),
        old(s).wf(),
        0 <= j < old(s).stats@.len(),
    ensures
        outcome matches Ok(addr) ==> final(s).phase == Phase::Bursting(i, addr) && stats_views(
            final(s).stats@,
        )[i as int].addr == Some(addr) && stats_views(final(s).stats@)[i as int].failed
            == stats_views(old(s).stats@)[i as int].failed,
        outcome is Err && i + 1 < old(s).stats@.len() ==> final(s).phase == Phase::Resolving(
            (i + 1) as usize,
        ),
        outcome is Err && i + 1 == old(s).stats@.len() ==> final(s).phase == Phase::Closing,
        outcome is Err ==> stats_views(final(s).stats@)[i as int].failed == stats_views(
            old(s).stats@,
        )[i as int].failed + 1,
        j != i ==> stats_views(final(s).stats@)[j] == stats_views(old(s).stats@)[j],
{
}

/// The waking is forgotten with the first success after it, and not before.
pub proof fn the_waking_is_forgotten_with_a_success(
    s: &mut Sampler,
    results: Vec<Outcome>,
    tb: Timebase,
    j: int,
)
    requires
        call_ensures(Sampler::burst_done, (s, &results, tb), ()),
        0 <= j < results@.len(),
    ensures
        results@[j].result is Ok ==> !final(s).woke_since_success,
        !any_success(results@) ==> final(s).woke_since_success == old(s).woke_since_success,
        !any_success(results@) ==> results@[j].result is Err,
        final(s).round == old(s).round,
        final(s).pending == old(s).pending,
{
}

} // verus!
