//! The clock model: how remote time runs against the machine's monotonic time.
//!
//! ```text
//! θ(m) = θ₀ + ρ · (m − m₀)        θ = remote time − host time
//! ```
//!
//! The estimator makes a model, the display reads it, and the layers pass nothing else.
//! The half-width grows with the distance from the reference point, as the drift is only
//! known within bounds.

use crate::arith::{fits_i128, round_div};
use crate::float::Float64;
use crate::time::{nanos_survive_ticks_within_half_a_tick, HostTime, Timebase};
use vstd::prelude::*;

verus! {

/// What a model is aligned with. Each kind has an estimator of its own.
#[derive(Clone, Copy, Debug, PartialEq, Eq, Hash, Structural)]
pub enum SourceKind {
    /// The national standard time servers.
    Standard,
    /// The time that a web server chosen by the user believes in.
    Target,
}

#[derive(Clone, Copy, Debug, PartialEq, Eq, Structural)]
pub enum ModelStatus {
    /// No sample yet: the estimate means nothing.
    Uncalibrated,
    /// Samples, but the window is still short and the interval wide.
    Converging,
    /// Running normally.
    Tracking,
    /// Woken from sleep, or long without samples: waiting for new ones.
    Stale,
    /// Frozen ahead of a target moment, no longer updated.
    Frozen,
}

/// The linear model of remote time.
#[derive(Clone, Copy, Debug, PartialEq, Eq, Structural)]
pub struct ClockModel {
    pub source: SourceKind,
    pub status: ModelStatus,
    /// The reference point m₀.
    pub reference: HostTime,
    /// θ₀: remote Unix nanoseconds minus host nanoseconds at the reference point.
    pub offset_ns: i128,
    /// ρ: the drift rate, seconds per second.
    pub drift: Float64,
    /// The half-width at the reference point, in nanoseconds.
    pub half_width_ns: u64,
    /// How fast the half-width grows away from the reference point, nanoseconds per second.
    pub half_width_growth_ns_per_s: Float64,
}

/// The remote time at one host instant: a midpoint and a hard half-width.
#[derive(Clone, Copy, Debug, PartialEq, Eq, Structural)]
pub struct Estimate {
    /// The midpoint, nanoseconds since the Unix epoch.
    pub remote_unix_ns: i128,
    /// The true time lies within this many nanoseconds of the midpoint.
    pub half_width_ns: u64,
}

/// What the two rates of a model come to over the time that has passed since its
/// reference point. Both are products of floating-point numbers cut to integers.
#[derive(Clone, Copy, Debug, PartialEq, Eq, Structural)]
pub struct DriftTerms {
    /// Drift rate times elapsed nanoseconds.
    pub drift_ns: i128,
    /// Growth rate times elapsed seconds, without sign.
    pub growth_ns: u64,
}

impl DriftTerms {
    /// The terms at the reference point itself, where no time has passed.
    pub fn none() -> (t: DriftTerms)
        ensures
            t.drift_ns == 0,
            t.growth_ns == 0,
    {
        DriftTerms { drift_ns: 0, growth_ns: 0 }
    }
}

/// `a + b`, held at the largest `u64`.
pub open spec fn saturating_sum(a: u64, b: u64) -> u64 {
    if a + b > u64::MAX {
        u64::MAX
    } else {
        (a + b) as u64
    }
}

impl ClockModel {
    /// The remote time that the model gives for an instant, the drift since the reference
    /// point coming to `drift_ns`.
    pub open spec fn remote_ns(self, at: HostTime, drift_ns: int, tb: Timebase) -> int {
        at.nanos(tb) + self.offset_ns + drift_ns
    }

    /// Whether the model says anything about the remote time.
    pub open spec fn usable(self) -> bool {
        self.status != ModelStatus::Uncalibrated && self.half_width_ns != u64::MAX
    }

    /// The model before any sample: no offset and an unbounded half-width.
    pub fn uncalibrated(source: SourceKind, now: HostTime) -> (m: ClockModel)
        ensures
            m == (ClockModel {
                source,
                status: ModelStatus::Uncalibrated,
                reference: now,
                offset_ns: 0,
                drift: Float64 { bits: 0 },
                half_width_ns: u64::MAX,
                half_width_growth_ns_per_s: Float64 { bits: 0 },
            }),
    {
        ClockModel {
            source,
            status: ModelStatus::Uncalibrated,
            reference: now,
            offset_ns: 0,
            drift: Float64::zero(),
            half_width_ns: u64::MAX,
            half_width_growth_ns_per_s: Float64::zero(),
        }
    }

    /// The nanoseconds from the reference point to an instant: what the rates are
    /// multiplied with.
    pub fn elapsed_ns(&self, at: HostTime, tb: Timebase) -> (n: i128)
        ensures
            n == at.nanos(tb) - self.reference.nanos(tb),
    {
        at.signed_nanos_since(self.reference, tb)
    }

    /// The remote time at a host instant.
    pub fn estimate_at(&self, at: HostTime, terms: DriftTerms, tb: Timebase) -> (e: Estimate)
        requires
            fits_i128(self.offset_ns + terms.drift_ns),
            fits_i128(self.remote_ns(at, terms.drift_ns as int, tb)),
        ensures
            e.remote_unix_ns == self.remote_ns(at, terms.drift_ns as int, tb),
            e.half_width_ns == saturating_sum(self.half_width_ns, terms.growth_ns),
    {
        let theta: i128 = self.offset_ns + terms.drift_ns;
        Estimate {
            remote_unix_ns: at.as_nanos(tb) as i128 + theta,
            half_width_ns: self.half_width_ns.saturating_add(terms.growth_ns),
        }
    }

    /// The instant that lies `elapsed_ns` from the reference point, which must not be before
    /// the clock's start nor beyond what sixty-four bits of nanoseconds hold.
    ///
    /// With `elapsed_ns` the remote distance from the reference point divided by one plus
    /// the drift rate, this is the host time of a remote moment.
    pub fn host_at(&self, elapsed_ns: i128, tb: Timebase) -> (t: HostTime)
        requires
            fits_i128(self.reference.nanos(tb) + elapsed_ns),
        ensures
            t.0 == tb.ticks_of(clamp_u64(self.reference.nanos(tb) + elapsed_ns)),
    {
        let ns: i128 = self.reference.as_nanos(tb) as i128 + elapsed_ns;
        let held: u64 = if ns < 0 {
            0
        } else if ns > u64::MAX as i128 {
            u64::MAX
        } else {
            ns as u64
        };
        HostTime::from_nanos(held, tb)
    }

    /// The remote nanoseconds between the reference point and a remote moment.
    pub fn remote_distance_ns(&self, remote_unix_ns: i128, tb: Timebase) -> (n: i128)
        requires
            fits_i128(remote_unix_ns - self.offset_ns),
            fits_i128(remote_unix_ns - self.offset_ns - self.reference.nanos(tb)),
        ensures
            n == remote_unix_ns - self.offset_ns - self.reference.nanos(tb),
    {
        remote_unix_ns - self.offset_ns - self.reference.as_nanos(tb) as i128
    }

    pub fn is_usable(&self) -> (b: bool)
        ensures
            b == self.usable(),
    {
        self.status != ModelStatus::Uncalibrated && self.half_width_ns != u64::MAX
    }
}

/// A number brought into the range of a `u64`.
pub open spec fn clamp_u64(n: int) -> int {
    if n < 0 {
        0
    } else if n > u64::MAX {
        u64::MAX as int
    } else {
        n
    }
}

/// Going to host time and back finds the remote moment again. `elapsed_ns` plus the drift
/// over it should come to the remote distance; by as much as it does not, and by the
/// rounding to ticks, the moment found is off.
pub proof fn host_time_inverts_the_estimate(
    model: ClockModel,
    target: int,
    elapsed_ns: int,
    drift_ns: int,
    slack: int,
    tb: Timebase,
)
    requires
        tb.numer_spec() > 0,
        tb.denom_spec() > 0,
        0 <= model.reference.nanos(tb) + elapsed_ns <= u64::MAX,
        round_div(
            (model.reference.nanos(tb) + elapsed_ns) * tb.denom_spec(),
            tb.numer_spec() as int,
        ) <= u64::MAX,
        round_div(
            tb.ticks_of(model.reference.nanos(tb) + elapsed_ns) * tb.numer_spec(),
            tb.denom_spec() as int,
        ) <= u64::MAX,
        -slack <= elapsed_ns + drift_ns - (target - model.offset_ns - model.reference.nanos(tb))
            <= slack,
    ensures
        ({
            let found = HostTime(
                tb.ticks_of(clamp_u64(model.reference.nanos(tb) + elapsed_ns)) as u64,
            );
            let half_tick = (tb.numer_spec() + 2 * tb.denom_spec() - 1) / (2
                * tb.denom_spec() as int);
            let off = model.remote_ns(found, drift_ns, tb) - target;
            -(slack + half_tick) <= off <= slack + half_tick
        }),
{
    let ns = model.reference.nanos(tb) + elapsed_ns;
    nanos_survive_ticks_within_half_a_tick(tb, ns as u64);
}

/// Away from the reference point the interval only ever widens.
pub proof fn half_width_never_shrinks(model: ClockModel, terms: DriftTerms)
    ensures
        saturating_sum(model.half_width_ns, terms.growth_ns) >= model.half_width_ns,
{
}

/// A model of unbounded width stays so at every instant.
pub proof fn unbounded_width_stays_unbounded(model: ClockModel, terms: DriftTerms)
    requires
        model.half_width_ns == u64::MAX,
    ensures
        saturating_sum(model.half_width_ns, terms.growth_ns) == u64::MAX,
        !model.usable(),
{
}

/// The remote time is the host's time, the offset and the drift, and the interval about it is as
/// wide as the model's and the growth together, or as wide as can be told.
pub proof fn an_estimate_adds_up(model: ClockModel, at: HostTime, terms: DriftTerms, tb: Timebase)
    ensures
        model.remote_ns(at, terms.drift_ns as int, tb) - at.nanos(tb) == model.offset_ns
            + terms.drift_ns,
        model.half_width_ns + terms.growth_ns <= u64::MAX ==> saturating_sum(
            model.half_width_ns,
            terms.growth_ns,
        ) == model.half_width_ns + terms.growth_ns,
        model.half_width_ns + terms.growth_ns > u64::MAX ==> saturating_sum(
            model.half_width_ns,
            terms.growth_ns,
        ) == u64::MAX,
{
}

/// A model can be used just where it was calibrated, by whatever status, and its width is known.
pub proof fn a_calibrated_model_can_be_used(model: ClockModel)
    ensures
        model.half_width_ns < u64::MAX && (model.status == ModelStatus::Converging || model.status
            == ModelStatus::Tracking || model.status == ModelStatus::Stale || model.status
            == ModelStatus::Frozen) ==> model.usable(),
        model.status == ModelStatus::Uncalibrated ==> !model.usable(),
{
}

/// Bringing a number into range changes none that is in it, and takes the others to the nearest
/// end.
pub proof fn clamping_goes_to_the_nearest_end(n: int)
    ensures
        0 <= clamp_u64(n) <= u64::MAX,
        0 <= n <= u64::MAX ==> clamp_u64(n) == n,
        n <= 0 ==> clamp_u64(n) == 0,
        n >= u64::MAX ==> clamp_u64(n) == u64::MAX,
{
}

/// The distance to a remote time, and the time that has elapsed where the model shows it, differ
/// by the drift alone, and the elapsed time leads back to the instant.
pub proof fn distances_differ_by_the_drift(
    model: ClockModel,
    at: HostTime,
    drift_ns: i128,
    remote_unix_ns: i128,
    tb: Timebase,
    distance: i128,
    elapsed: i128,
    back: HostTime,
)
    requires
        remote_unix_ns == model.remote_ns(at, drift_ns as int, tb),
        call_ensures(ClockModel::remote_distance_ns, (&model, remote_unix_ns, tb), distance),
        call_ensures(ClockModel::elapsed_ns, (&model, at, tb), elapsed),
        call_ensures(ClockModel::host_at, (&model, elapsed, tb), back),
    ensures
        distance == elapsed + drift_ns,
        elapsed == at.nanos(tb) - model.reference.nanos(tb),
        back.0 == tb.ticks_of(clamp_u64(at.nanos(tb) as int)),
{
}

} // verus!
