//! The monotonic clock.
//!
//! The whole program counts in ticks of the machine's absolute clock, because the
//! display link, input events, the audio device and the kernel's arrival stamps all use
//! it. A tick is not a nanosecond: a [`Timebase`] converts, rounding to the nearest.

use crate::arith::{
    lemma_product_bound, lemma_round_div_nearest, lemma_round_div_unique, low64, monus, round_div,
    two64,
};
use crate::duration::Duration;
use vstd::prelude::*;

verus! {

/// How long a tick lasts: `numer / denom` nanoseconds. It never changes while the
/// program runs.
#[derive(Clone, Copy, Debug, PartialEq, Eq, Structural)]
pub struct Timebase {
    numer: u32,
    denom: u32,
}

impl Timebase {
    #[verifier::type_invariant]
    spec fn positive(self) -> bool {
        self.numer > 0 && self.denom > 0
    }

    pub closed spec fn numer_spec(&self) -> u32 {
        self.numer
    }

    pub closed spec fn denom_spec(&self) -> u32 {
        self.denom
    }

    /// The nanoseconds nearest to a number of ticks, as far as sixty-four bits hold them.
    pub open spec fn nanos_of(self, ticks: int) -> int {
        round_div(ticks * self.numer_spec(), self.denom_spec() as int) % two64()
    }

    /// The ticks nearest to a number of nanoseconds, as far as sixty-four bits hold them.
    pub open spec fn ticks_of(self, nanos: int) -> int {
        round_div(nanos * self.denom_spec(), self.numer_spec() as int) % two64()
    }

    /// The ticks in a span of nanoseconds, which counts as `u64::MAX` of them where it is
    /// longer.
    pub open spec fn ticks_of_span(self, span_ns: int) -> int {
        self.ticks_of(
            if span_ns > u64::MAX {
                u64::MAX as int
            } else {
                span_ns
            },
        )
    }

    pub fn new(numer: u32, denom: u32) -> (tb: Timebase)
        requires
            numer > 0,
            denom > 0,
        ensures
            tb.numer_spec() == numer,
            tb.denom_spec() == denom,
    {
        Timebase { numer, denom }
    }

    pub fn numer(&self) -> (n: u32)
        ensures
            n == self.numer_spec(),
            n > 0,
    {
        proof {
            use_type_invariant(self);
        }
        self.numer
    }

    pub fn denom(&self) -> (d: u32)
        ensures
            d == self.denom_spec(),
            d > 0,
    {
        proof {
            use_type_invariant(self);
        }
        self.denom
    }

    /// Ticks as nanoseconds, rounded to the nearest.
    pub fn ticks_to_nanos(&self, ticks: u64) -> (nanos: u64)
        ensures
            nanos == self.nanos_of(ticks as int),
    {
        proof {
            use_type_invariant(self);
            lemma_product_bound(
                ticks as int,
                u64::MAX as int,
                self.numer as int,
                u32::MAX as int,
            );
        }
        let n: u128 = ticks as u128 * self.numer as u128;
        low64((n + self.denom as u128 / 2) / self.denom as u128)
    }

    /// Nanoseconds as ticks, rounded to the nearest.
    pub fn nanos_to_ticks(&self, nanos: u64) -> (ticks: u64)
        ensures
            ticks == self.ticks_of(nanos as int),
    {
        proof {
            use_type_invariant(self);
            lemma_product_bound(
                nanos as int,
                u64::MAX as int,
                self.denom as int,
                u32::MAX as int,
            );
        }
        let n: u128 = nanos as u128 * self.denom as u128;
        low64((n + self.numer as u128 / 2) / self.numer as u128)
    }

    pub fn ticks_to_duration(&self, ticks: u64) -> (d: Duration)
        ensures
            d@ == self.nanos_of(ticks as int),
    {
        Duration::from_nanos(self.ticks_to_nanos(ticks))
    }

    /// The ticks in a span. A span over `u64::MAX` nanoseconds counts as that many.
    pub fn duration_to_ticks(&self, d: Duration) -> (ticks: u64)
        ensures
            ticks == self.ticks_of_span(d@),
    {
        let wide: u128 = d.as_nanos();
        let nanos: u64 = if wide > u64::MAX as u128 {
            u64::MAX
        } else {
            wide as u64
        };
        self.nanos_to_ticks(nanos)
    }
}

/// One instant of the machine's monotonic clock, in ticks.
///
/// Spans can be added and instants subtracted; turning one into wall time is the work
/// of [`crate::model::ClockModel`].
#[derive(Clone, Copy, Debug, PartialEq, Eq, PartialOrd, Ord, Hash, Structural)]
pub struct HostTime(pub u64);

impl HostTime {
    /// The instant in nanoseconds since the machine started.
    pub open spec fn nanos(self, tb: Timebase) -> int {
        tb.nanos_of(self.0 as int)
    }

    pub fn from_ticks(ticks: u64) -> (t: HostTime)
        ensures
            t.0 == ticks,
    {
        HostTime(ticks)
    }

    pub fn ticks(self) -> (ticks: u64)
        ensures
            ticks == self.0,
    {
        self.0
    }

    pub fn from_nanos(nanos: u64, tb: Timebase) -> (t: HostTime)
        ensures
            t.0 == tb.ticks_of(nanos as int),
    {
        HostTime(tb.nanos_to_ticks(nanos))
    }

    pub fn as_nanos(self, tb: Timebase) -> (nanos: u64)
        ensures
            nanos == self.nanos(tb),
    {
        tb.ticks_to_nanos(self.0)
    }

    /// `self − earlier`, or `None` where `earlier` is the later of the two.
    pub fn checked_duration_since(self, earlier: HostTime, tb: Timebase) -> (d: Option<Duration>)
        ensures
            d is Some <==> earlier.0 <= self.0,
            d is Some ==> d->0@ == tb.nanos_of(self.0 - earlier.0),
    {
        if earlier.0 <= self.0 {
            Some(tb.ticks_to_duration(self.0 - earlier.0))
        } else {
            None
        }
    }

    /// `self − earlier`, or nothing where `earlier` is the later of the two.
    pub fn saturating_duration_since(self, earlier: HostTime, tb: Timebase) -> (d: Duration)
        ensures
            d@ == (if earlier.0 <= self.0 {
                tb.nanos_of(self.0 - earlier.0)
            } else {
                0
            }),
    {
        match self.checked_duration_since(earlier, tb) {
            Some(d) => d,
            None => Duration::zero(),
        }
    }

    /// `self − other` in nanoseconds, negative where `other` is the later.
    pub fn signed_nanos_since(self, other: HostTime, tb: Timebase) -> (n: i128)
        ensures
            n == self.nanos(tb) - other.nanos(tb),
    {
        tb.ticks_to_nanos(self.0) as i128 - tb.ticks_to_nanos(other.0) as i128
    }

    /// How long ago this instant was, seen from `now`.
    pub fn elapsed(self, now: HostTime, tb: Timebase) -> (d: Duration)
        ensures
            d@ == (if self.0 <= now.0 {
                tb.nanos_of(now.0 - self.0)
            } else {
                0
            }),
    {
        now.saturating_duration_since(self, tb)
    }

    /// The instant a span later, or the last one there is.
    pub open spec fn later(self, span_ns: int, tb: Timebase) -> HostTime {
        let t = self.0 + tb.ticks_of_span(span_ns);
        if t > u64::MAX {
            HostTime(u64::MAX)
        } else {
            HostTime(t as u64)
        }
    }

    /// The instant a span earlier, or the first one there is.
    pub open spec fn earlier(self, span_ns: int, tb: Timebase) -> HostTime {
        HostTime(monus(self.0 as int, tb.ticks_of_span(span_ns)) as u64)
    }

    /// The instant a span after this one.
    pub fn plus(self, d: Duration, tb: Timebase) -> (t: HostTime)
        ensures
            t == self.later(d@, tb),
    {
        HostTime(self.0.saturating_add(tb.duration_to_ticks(d)))
    }

    /// The instant a span before this one.
    pub fn minus(self, d: Duration, tb: Timebase) -> (t: HostTime)
        ensures
            t == self.earlier(d@, tb),
    {
        HostTime(self.0.saturating_sub(tb.duration_to_ticks(d)))
    }
}

/// The system clock's offset from the monotonic clock: Unix nanoseconds minus the
/// nanoseconds since the machine started, from one reading of each. A system clock that
/// stands before the Unix epoch reads as `None` and counts as zero.
///
/// With it the model's offset becomes "remote minus system clock", positive where the
/// system clock is slow.
pub fn system_theta_ns(host: HostTime, unix: Option<Duration>, tb: Timebase) -> (theta: i128)
    ensures
        theta == (match unix {
            Some(d) => d@,
            None => 0,
        }) - host.nanos(tb),
{
    let unix_ns: i128 = match unix {
        Some(d) => d.as_nanos() as i128,
        None => 0,
    };
    unix_ns - host.as_nanos(tb) as i128
}

/// Where a tick is no shorter than a nanosecond, turning ticks into nanoseconds and back
/// gives the ticks again, as long as the nanoseconds fit in sixty-four bits.
pub proof fn ticks_survive_nanos(tb: Timebase, ticks: u64)
    requires
        tb.denom_spec() > 0,
        tb.numer_spec() >= tb.denom_spec(),
        round_div(ticks * tb.numer_spec(), tb.denom_spec() as int) <= u64::MAX,
    ensures
        tb.ticks_of(tb.nanos_of(ticks as int)) == ticks,
{
    let n = tb.numer_spec() as int;
    let d = tb.denom_spec() as int;
    let ns = round_div(ticks * n, d);
    lemma_round_div_nearest(ticks * n, d);
    lemma_product_bound(ticks as int, u64::MAX as int, n, u32::MAX as int);
    assert(ns >= 0) by (nonlinear_arith)
        requires
            -d < 2 * (ns * d - ticks * n),
            ticks * n >= 0,
            d > 0,
    ;
    assert(tb.nanos_of(ticks as int) == ns);
    if n == d {
        lemma_round_div_unique(ticks * n, d, ticks as int);
    }
    lemma_round_div_unique(ns * d, n, ticks as int);
}

/// Turning nanoseconds into ticks and back is off by at most half a tick, the half
/// rounded up to whole nanoseconds.
pub proof fn nanos_survive_ticks_within_half_a_tick(tb: Timebase, nanos: u64)
    requires
        tb.denom_spec() > 0,
        tb.numer_spec() > 0,
        round_div(nanos * tb.denom_spec(), tb.numer_spec() as int) <= u64::MAX,
        round_div(tb.ticks_of(nanos as int) * tb.numer_spec(), tb.denom_spec() as int)
            <= u64::MAX,
    ensures
        ({
            let half_tick = (tb.numer_spec() + 2 * tb.denom_spec() - 1) / (2
                * tb.denom_spec() as int);
            let back = tb.nanos_of(tb.ticks_of(nanos as int));
            -half_tick <= back - nanos <= half_tick
        }),
{
    let n = tb.numer_spec() as int;
    let d = tb.denom_spec() as int;
    let t = round_div(nanos * d, n);
    lemma_round_div_nearest(nanos * d, n);
    lemma_product_bound(nanos as int, u64::MAX as int, d, u32::MAX as int);
    assert(t >= 0) by (nonlinear_arith)
        requires
            -n < 2 * (t * n - nanos * d),
            nanos * d >= 0,
            n > 0,
    ;
    assert(tb.ticks_of(nanos as int) == t);
    let back = round_div(t * n, d);
    lemma_round_div_nearest(t * n, d);
    assert(t * n >= 0) by (nonlinear_arith)
        requires
            t >= 0,
            n > 0,
    ;
    assert(back >= 0) by (nonlinear_arith)
        requires
            -d < 2 * (back * d - t * n),
            t * n >= 0,
            d > 0,
    ;
    assert(tb.nanos_of(t) == back);
    let h = (n + 2 * d - 1) / (2 * d);
    let e = back - nanos;
    assert(-h <= e <= h) by (nonlinear_arith)
        requires
            d > 0,
            n > 0,
            h == (n + 2 * d - 1) / (2 * d),
            e == back - nanos,
            -d < 2 * (back * d - t * n) <= d,
            -n < 2 * (t * n - nanos * d) <= n,
    ;
}

/// Adding a span and taking it away again gives the same instant, as long as the sum is
/// not cut off at the end of the clock.
pub proof fn adding_then_subtracting_a_span_is_nothing(t: HostTime, span_ns: int, tb: Timebase)
    requires
        t.0 + tb.ticks_of_span(span_ns) <= u64::MAX,
    ensures
        t.later(span_ns, tb).earlier(span_ns, tb) == t,
{
}

/// The difference of two instants changes sign when they change places.
pub proof fn signed_difference_is_antisymmetric(a: HostTime, b: HostTime, tb: Timebase)
    ensures
        a.nanos(tb) - b.nanos(tb) == -(b.nanos(tb) - a.nanos(tb)),
{
}

/// Converting finds the nearest: the nanoseconds of a number of ticks are off by at most half a
/// nanosecond, and the ticks of a number of nanoseconds by at most half a tick, as long as they
/// fit in sixty-four bits.
pub proof fn conversions_are_nearest(tb: Timebase, ticks: u64, nanos: u64)
    requires
        tb.denom_spec() > 0,
        tb.numer_spec() > 0,
        ticks * tb.numer_spec() < u64::MAX * tb.denom_spec(),
        nanos * tb.denom_spec() < u64::MAX * tb.numer_spec(),
    ensures
        ({
            let n = tb.numer_spec() as int;
            let d = tb.denom_spec() as int;
            &&& -d <= 2 * (tb.nanos_of(ticks as int) * d - ticks * n) <= d
            &&& -n <= 2 * (tb.ticks_of(nanos as int) * n - nanos * d) <= n
        }),
{
    let n = tb.numer_spec() as int;
    let d = tb.denom_spec() as int;
    lemma_nearest_fits(ticks * n, d);
    lemma_nearest_fits(nanos * d, n);
    lemma_product_bound(ticks as int, u64::MAX as int, n, u32::MAX as int);
    lemma_product_bound(nanos as int, u64::MAX as int, d, u32::MAX as int);
}

proof fn lemma_nearest_fits(x: int, d: int)
    requires
        d > 0,
        x < u64::MAX * d,
    ensures
        x >= 0 ==> 0 <= round_div(x, d) <= u64::MAX,
        x >= 0 ==> round_div(x, d) % two64() == round_div(x, d),
        -d < 2 * (round_div(x, d) * d - x) <= d,
{
    lemma_round_div_nearest(x, d);
    let q = round_div(x, d);
    if x >= 0 {
        assert(q >= 0) by (nonlinear_arith)
            requires
                -d < 2 * (q * d - x),
                x >= 0,
                d > 0,
        ;
        assert(q <= u64::MAX) by (nonlinear_arith)
            requires
                2 * (q * d - x) <= d,
                x < u64::MAX * d,
                d > 0,
        ;
    }
}

/// An instant moved by a span is that many ticks away, on the side that was asked, or at the end
/// of the clock.
pub proof fn moving_an_instant_moves_it_by_the_span(t: HostTime, span_ns: int, tb: Timebase)
    requires
        0 <= span_ns <= u64::MAX,
    ensures
        t.later(span_ns, tb).0 == t.0 + tb.ticks_of(span_ns) || t.0 + tb.ticks_of(span_ns)
            > u64::MAX && t.later(span_ns, tb).0 == u64::MAX,
        t.earlier(span_ns, tb).0 == t.0 - tb.ticks_of(span_ns) || t.0 < tb.ticks_of(span_ns)
            && t.earlier(span_ns, tb).0 == 0,
        t.earlier(span_ns, tb).0 <= t.0 <= t.later(span_ns, tb).0,
{
}

/// Spans beyond sixty-four bits of nanoseconds count as that many.
pub proof fn spans_count_up_to_sixty_four_bits(span_ns: int, tb: Timebase)
    requires
        span_ns >= u64::MAX,
    ensures
        tb.ticks_of_span(span_ns) == tb.ticks_of(u64::MAX as int),
{
}

/// The offset of the system clock is what has to be added to the host's time to give its own.
pub proof fn the_offset_leads_to_the_system_time(
    host: HostTime,
    unix: Duration,
    tb: Timebase,
    theta: i128,
)
    requires
        call_ensures(system_theta_ns, (host, Some(unix), tb), theta),
    ensures
        host.nanos(tb) + theta == unix@,
{
}

/// Where an instant is not before another the time between them is told, and otherwise it is
/// nothing, or nothing is told.
pub proof fn time_between_instants_is_told_forwards(
    a: HostTime,
    b: HostTime,
    tb: Timebase,
    checked: Option<Duration>,
    saturating: Duration,
    elapsed: Duration,
    signed: i128,
    back: i128,
)
    requires
        call_ensures(HostTime::checked_duration_since, (b, a, tb), checked),
        call_ensures(HostTime::saturating_duration_since, (b, a, tb), saturating),
        call_ensures(HostTime::elapsed, (a, b, tb), elapsed),
        call_ensures(HostTime::signed_nanos_since, (b, a, tb), signed),
        call_ensures(HostTime::signed_nanos_since, (a, b, tb), back),
    ensures
        checked is None <==> b.0 < a.0,
        checked matches Some(d) ==> d@ == tb.nanos_of(b.0 - a.0) && saturating@ == d@,
        checked is None ==> saturating@ == 0,
        elapsed@ == saturating@,
        signed == -back,
        a.nanos(tb) + signed == b.nanos(tb),
{
}

} // verus!
