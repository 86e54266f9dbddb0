//! Noticing that the machine has slept.

use crate::arith::monus;
use crate::duration::Duration;
use crate::time::Timebase;
use vstd::prelude::*;

verus! {

/// Two clocks count the same ticks from the same start, one through sleep and one not; their
/// gap is the time slept so far. A gap that grew means another sleep. The readings jitter by
/// microseconds, so that growth below a threshold means nothing.
#[derive(Clone, Copy, Debug, PartialEq, Eq, Structural)]
pub struct SleepDetector {
    /// The gap that was last taken as the base, in ticks.
    pub last_gap: u64,
    pub threshold_ticks: u64,
}

impl SleepDetector {
    /// Takes the gap of two readings as the base.
    pub fn new(threshold: Duration, absolute: u64, continuous: u64, tb: Timebase) -> (d:
        SleepDetector)
        ensures
            d.last_gap == monus(continuous as int, absolute as int),
            d.threshold_ticks == tb.ticks_of_span(threshold@),
    {
        SleepDetector::from_readings(absolute, continuous, tb.duration_to_ticks(threshold))
    }

    pub fn from_readings(absolute: u64, continuous: u64, threshold_ticks: u64) -> (d: SleepDetector)
        ensures
            d.last_gap == monus(continuous as int, absolute as int),
            d.threshold_ticks == threshold_ticks,
    {
        SleepDetector { last_gap: continuous.saturating_sub(absolute), threshold_ticks }
    }

    /// How many ticks of sleep two readings show beyond the base.
    pub open spec fn growth(self, absolute: u64, continuous: u64) -> int {
        monus(monus(continuous as int, absolute as int), self.last_gap as int)
    }

    /// How long the machine slept since the last sleep that was noticed, from two readings.
    pub fn check(&mut self, absolute: u64, continuous: u64, tb: Timebase) -> (slept: Option<
        Duration,
    >)
        ensures
            slept is Some <==> old(self).growth(absolute, continuous) >= old(self).threshold_ticks,
            slept is Some ==> slept->0@ == tb.nanos_of(old(self).growth(absolute, continuous)),
            final(self).threshold_ticks == old(self).threshold_ticks,
            final(self).last_gap == (if slept is Some {
                monus(continuous as int, absolute as int)
            } else {
                old(self).last_gap as int
            }),
    {
        match self.check_readings(absolute, continuous) {
            Some(ticks) => Some(tb.ticks_to_duration(ticks)),
            None => None,
        }
    }

    /// The ticks slept since the last sleep that was noticed. A sleep that is noticed becomes
    /// the new base.
    pub fn check_readings(&mut self, absolute: u64, continuous: u64) -> (slept: Option<u64>)
        ensures
            slept == (if old(self).growth(absolute, continuous) >= old(self).threshold_ticks {
                Some(old(self).growth(absolute, continuous) as u64)
            } else {
                None
            }),
            final(self).threshold_ticks == old(self).threshold_ticks,
            final(self).last_gap == (if slept is Some {
                monus(continuous as int, absolute as int)
            } else {
                old(self).last_gap as int
            }),
    {
        let gap: u64 = continuous.saturating_sub(absolute);
        let slept: u64 = gap.saturating_sub(self.last_gap);
        if slept >= self.threshold_ticks {
            self.last_gap = gap;
            Some(slept)
        } else {
            None
        }
    }
}

/// A sleep is reported once: readings with the same gap show no sleep after it, as long as
/// the threshold is not zero.
pub proof fn a_sleep_is_reported_once(
    d: SleepDetector,
    absolute: u64,
    continuous: u64,
    later_absolute: u64,
    later_continuous: u64,
)
    requires
        d.threshold_ticks > 0,
        d.last_gap == monus(continuous as int, absolute as int),
        monus(later_continuous as int, later_absolute as int) <= monus(
            continuous as int,
            absolute as int,
        ),
    ensures
        d.growth(later_absolute, later_continuous) < d.threshold_ticks,
{
}

/// What is noticed is the time slept: where one clock went on by so many ticks and the other by
/// that and the sleep, the growth is the sleep, whatever the readings were.
pub proof fn the_growth_is_the_sleep(
    d: SleepDetector,
    absolute: u64,
    continuous: u64,
    awake: int,
    slept: int,
)
    requires
        absolute <= continuous,
        d.last_gap == continuous - absolute,
        awake >= 0,
        slept >= 0,
        continuous + awake + slept <= u64::MAX,
    ensures
        d.growth((absolute + awake) as u64, (continuous + awake + slept) as u64) == slept,
{
}

/// Readings that jitter backwards are no sleep.
pub proof fn a_smaller_gap_is_no_sleep(d: SleepDetector, absolute: u64, continuous: u64)
    requires
        continuous <= absolute + d.last_gap,
    ensures
        d.growth(absolute, continuous) == 0,
{
}

/// A sleep is told just where the gap between the clocks has grown by the threshold or more, is
/// told in full, and counts as known from then on; a smaller growth leaves what is known.
pub proof fn a_sleep_is_told_in_full(
    d: &mut SleepDetector,
    absolute: u64,
    continuous: u64,
    slept: Option<u64>,
)
    requires
        call_ensures(SleepDetector::check_readings, (d, absolute, continuous), slept),
        absolute + old(d).last_gap <= continuous,
    ensures
        slept is Some <==> continuous - absolute >= old(d).last_gap + old(d).threshold_ticks,
        slept matches Some(n) ==> n == continuous - absolute - old(d).last_gap && final(d).last_gap
            == continuous - absolute,
        slept is None ==> final(d).last_gap == old(d).last_gap,
{
}

/// The time that was slept is told in nanoseconds, where it is told at all.
pub proof fn a_sleep_is_told_as_a_duration(
    d: &mut SleepDetector,
    absolute: u64,
    continuous: u64,
    tb: Timebase,
    slept: Option<Duration>,
)
    requires
        call_ensures(SleepDetector::check, (d, absolute, continuous, tb), slept),
        absolute + old(d).last_gap <= continuous,
    ensures
        slept is Some <==> continuous - absolute - old(d).last_gap >= old(d).threshold_ticks,
        slept matches Some(x) ==> x@ == tb.nanos_of(continuous - absolute - old(d).last_gap)
            && final(d).last_gap == continuous - absolute,
        slept is None ==> final(d).last_gap == old(d).last_gap,
        final(d).threshold_ticks == old(d).threshold_ticks,
{
}

} // verus!
