//! A span of time in whole nanoseconds, with the range of the standard library's own.

use vstd::prelude::*;

verus! {

/// The longest span: `u64::MAX` seconds and 999 999 999 nanoseconds.
pub const MAX_NANOS: u128 = 18_446_744_073_709_551_615_999_999_999;

/// A non-negative span of time. Its view is its length in nanoseconds.
#[derive(Clone, Copy, Debug, PartialEq, Eq, PartialOrd, Ord, Hash, Structural)]
pub struct Duration {
    nanos: u128,
}

impl View for Duration {
    type V = int;

    closed spec fn view(&self) -> int {
        self.nanos as int
    }
}

impl Duration {
    #[verifier::type_invariant]
    spec fn in_range(self) -> bool {
        self.nanos <= MAX_NANOS
    }

    /// The empty span.
    pub fn zero() -> (d: Duration)
        ensures
            d@ == 0,
    {
        Duration { nanos: 0 }
    }

    pub fn from_secs(secs: u64) -> (d: Duration)
        ensures
            d@ == secs * 1_000_000_000,
    {
        Duration { nanos: secs as u128 * 1_000_000_000 }
    }

    pub fn from_millis(millis: u64) -> (d: Duration)
        ensures
            d@ == millis * 1_000_000,
    {
        Duration { nanos: millis as u128 * 1_000_000 }
    }

    pub fn from_micros(micros: u64) -> (d: Duration)
        ensures
            d@ == micros * 1_000,
    {
        Duration { nanos: micros as u128 * 1_000 }
    }

    pub fn from_nanos(nanos: u64) -> (d: Duration)
        ensures
            d@ == nanos,
    {
        Duration { nanos: nanos as u128 }
    }

    /// The length in nanoseconds.
    pub fn as_nanos(&self) -> (n: u128)
        ensures
            n == self@,
            n <= MAX_NANOS,
    {
        proof {
            use_type_invariant(self);
        }
        self.nanos
    }

    /// The whole milliseconds in the span.
    pub fn as_millis(&self) -> (n: u128)
        ensures
            n == self@ / 1_000_000,
    {
        self.nanos / 1_000_000
    }

    /// The whole seconds in the span.
    pub fn as_secs(&self) -> (n: u64)
        ensures
            n == self@ / 1_000_000_000,
    {
        proof {
            use_type_invariant(self);
        }
        (self.nanos / 1_000_000_000) as u64
    }

    /// The span `n` times over.
    pub fn times(self, n: u32) -> (d: Duration)
        requires
            self@ * n <= MAX_NANOS,
        ensures
            d@ == self@ * n,
    {
        proof {
            use_type_invariant(&self);
            vstd::arithmetic::mul::lemma_mul_nonnegative(self@, n as int);
        }
        Duration { nanos: self.nanos * n as u128 }
    }

    /// Both spans, one after the other.
    pub fn plus(self, other: Duration) -> (d: Duration)
        requires
            self@ + other@ <= MAX_NANOS,
        ensures
            d@ == self@ + other@,
    {
        Duration { nanos: self.nanos + other.nanos }
    }

    /// What is left of the span without the other, or nothing.
    pub fn saturating_sub(self, other: Duration) -> (d: Duration)
        ensures
            d@ == crate::arith::monus(self@, other@),
    {
        proof {
            use_type_invariant(&self);
        }
        if self.nanos > other.nanos {
            Duration { nanos: self.nanos - other.nanos }
        } else {
            Duration { nanos: 0 }
        }
    }

    /// The longer of two spans.
    pub fn longest(self, other: Duration) -> (d: Duration)
        ensures
            d@ == crate::arith::max_of(self@, other@),
            d == self || d == other,
    {
        if self.nanos >= other.nanos {
            self
        } else {
            other
        }
    }

    /// Whether the span is shorter than the other.
    pub fn shorter_than(&self, other: &Duration) -> (b: bool)
        ensures
            b == (self@ < other@),
    {
        self.nanos < other.nanos
    }

    pub fn is_zero(&self) -> (b: bool)
        ensures
            b == (self@ == 0),
    {
        self.nanos == 0
    }
}

/// A second is a thousand milliseconds, a millisecond a thousand microseconds and a microsecond a
/// thousand nanoseconds, and what a duration is made of is read from it again.
pub proof fn units_are_a_thousand_apart(
    n: u64,
    s: Duration,
    ms: Duration,
    us: Duration,
    ns: Duration,
    secs: u64,
    millis: u128,
    nanos: u128,
)
    requires
        call_ensures(Duration::from_secs, (n,), s),
        call_ensures(Duration::from_millis, (n,), ms),
        call_ensures(Duration::from_micros, (n,), us),
        call_ensures(Duration::from_nanos, (n,), ns),
        call_ensures(Duration::as_secs, (&s,), secs),
        call_ensures(Duration::as_millis, (&ms,), millis),
        call_ensures(Duration::as_nanos, (&ns,), nanos),
    ensures
        s@ == 1_000 * ms@,
        ms@ == 1_000 * us@,
        us@ == 1_000 * ns@,
        secs == n,
        millis == n,
        nanos == n,
{
}

/// The longer of two durations is one of them, neither is longer, and the shorter is the other.
pub proof fn the_longer_is_not_shorter(a: Duration, b: Duration, d: Duration, shorter: bool)
    requires
        call_ensures(Duration::longest, (a, b), d),
        call_ensures(Duration::shorter_than, (&d, &a), shorter),
    ensures
        !shorter,
        d@ >= a@ && d@ >= b@,
        d == a || d == b,
{
}

/// Adding a duration adds its nanoseconds, and adding none changes nothing.
pub proof fn adding_goes_either_way(a: Duration, b: Duration, ab: Duration, ba: Duration)
    requires
        call_ensures(Duration::plus, (a, b), ab),
        call_ensures(Duration::plus, (b, a), ba),
    ensures
        ab@ == ba@,
        ab@ - b@ == a@,
{
}

} // verus!
