//! Time sources. Whatever a source is, one measurement of it comes down to hard bounds
//! on the offset θ between remote and host time: a [`Sample`].
//!
//! A source does no statistics. It hands over the interval that one measurement allows;
//! intersecting intervals and casting out bad ones is the estimator's work.

use crate::arith::{fits_i128, low64_signed, two64};
use crate::model::SourceKind;
use crate::time::HostTime;
use vstd::prelude::*;

pub mod client;
pub mod ntp;
pub mod udp;

verus! {

/// One measurement: near host time `at`, θ lies in `[lo_ns, hi_ns]`.
#[derive(Clone, Copy, Debug, PartialEq, Eq, Structural)]
pub struct Sample {
    pub source: SourceKind,
    /// The host time of the measurement, halfway between sending and receiving.
    pub at: HostTime,
    /// The lower bound of θ, in nanoseconds.
    pub lo_ns: i128,
    /// The upper bound of θ, in nanoseconds.
    pub hi_ns: i128,
}

/// Half of a number, cut towards zero.
pub open spec fn half_towards_zero(n: int) -> int {
    if n >= 0 {
        n / 2
    } else {
        -((-n) / 2)
    }
}

impl Sample {
    /// A measurement bounds θ from below and above.
    pub open spec fn wf(self) -> bool {
        self.lo_ns <= self.hi_ns
    }

    /// The bounds are of ordinary size, as those of every NTP exchange are.
    pub open spec fn modest(self) -> bool {
        &&& -0x10_0000_0000_0000_0000_0000_0000 <= self.lo_ns
            <= 0x10_0000_0000_0000_0000_0000_0000
        &&& -0x10_0000_0000_0000_0000_0000_0000 <= self.hi_ns
            <= 0x10_0000_0000_0000_0000_0000_0000
    }

    /// Whether the measurement allows an offset.
    pub open spec fn allows(self, theta: int) -> bool {
        self.lo_ns <= theta <= self.hi_ns
    }

    /// A sample, or `None` where the bounds contradict each other.
    pub fn new(source: SourceKind, at: HostTime, lo_ns: i128, hi_ns: i128) -> (s: Option<Sample>)
        ensures
            s == (if lo_ns <= hi_ns {
                Some(Sample { source, at, lo_ns, hi_ns })
            } else {
                None
            }),
    {
        if lo_ns <= hi_ns {
            Some(Sample { source, at, lo_ns, hi_ns })
        } else {
            None
        }
    }

    pub fn midpoint_ns(&self) -> (m: i128)
        requires
            fits_i128(self.lo_ns + self.hi_ns),
        ensures
            m == half_towards_zero(self.lo_ns + self.hi_ns),
    {
        (self.lo_ns + self.hi_ns) / 2
    }

    /// Half the width, in sixty-four bits.
    pub fn half_width_ns(&self) -> (w: u64)
        requires
            fits_i128(self.hi_ns - self.lo_ns),
        ensures
            w == half_towards_zero(self.hi_ns - self.lo_ns) % two64(),
    {
        let half: i128 = (self.hi_ns - self.lo_ns) / 2;
        low64_signed(half)
    }
}

/// A sample always allows its own midpoint.
pub proof fn midpoint_is_allowed(s: Sample)
    requires
        s.wf(),
    ensures
        s.allows(half_towards_zero(s.lo_ns + s.hi_ns)),
{
}

/// The midpoint is in the middle: as far from one bound as from the other, to a nanosecond.
pub proof fn the_midpoint_is_in_the_middle(s: Sample)
    ensures
        -1 <= (half_towards_zero(s.lo_ns + s.hi_ns) - s.lo_ns) - (s.hi_ns - half_towards_zero(
            s.lo_ns + s.hi_ns,
        )) <= 1,
        s.wf() ==> 0 <= (s.hi_ns - s.lo_ns) - 2 * half_towards_zero(s.hi_ns - s.lo_ns) <= 1,
        forall|theta: int| s.allows(theta) <==> s.lo_ns <= theta && theta <= s.hi_ns,
{
}

/// A sample has its bounds in order, or there is none, and it keeps what it is made of.
pub proof fn bounds_out_of_order_make_no_sample(
    source: SourceKind,
    at: HostTime,
    lo_ns: i128,
    hi_ns: i128,
    s: Option<Sample>,
)
    requires
        call_ensures(Sample::new, (source, at, lo_ns, hi_ns), s),
    ensures
        s is None <==> hi_ns < lo_ns,
        s matches Some(x) ==> x.lo_ns == lo_ns && x.hi_ns == hi_ns && x.at == at && x.source
            == source && x.lo_ns <= x.hi_ns,
{
}

/// The half width of a sample no wider than 64 bits is half its width, cut to whole nanoseconds,
/// so that the midpoint is that far from each bound but for a nanosecond.
pub proof fn the_half_width_is_half_the_width(s: Sample, m: i128, w: u64)
    requires
        s.lo_ns <= s.hi_ns,
        s.hi_ns - s.lo_ns <= u64::MAX,
        call_ensures(Sample::midpoint_ns, (&s,), m),
        call_ensures(Sample::half_width_ns, (&s,), w),
    ensures
        s.hi_ns - s.lo_ns == 2 * w || s.hi_ns - s.lo_ns == 2 * w + 1,
        w <= s.hi_ns - m <= w + 1,
        w <= m - s.lo_ns <= w + 1,
{
}

} // verus!
