//! What the display shows: an offset that glides to each new model, and remote time as local
//! hours, minutes and seconds.
//!
//! A model changes every few minutes and the digits must not jump. The shown offset follows
//! the model's midpoint at a limited rate, and while it does, its distance from the midpoint
//! is added to the reported half-width, so that the interval stays honest.

use crate::arith::{abs, fits_i128, low_i64, wrap_i64};
use crate::duration::Duration;
use crate::float::Float64;
use crate::model::{saturating_sum, ClockModel, DriftTerms, Estimate};
use crate::time::{HostTime, Timebase};
use vstd::prelude::*;

verus! {

#[derive(Clone, Copy, Debug, PartialEq, Eq, Structural)]
pub struct SmootherConfig {
    /// How far the shown offset moves in a second, in nanoseconds.
    pub max_slew_ns_per_s: Float64,
}

impl Default for SmootherConfig {
    /// Ten milliseconds in a second: time runs one per cent fast or slow meanwhile, which
    /// nobody sees.
    fn default() -> (c: SmootherConfig)
        ensures
            c.max_slew_ns_per_s.bits == 0x4163_12d0_0000_0000,
    {
        SmootherConfig { max_slew_ns_per_s: Float64 { bits: 0x4163_12d0_0000_0000 } }
    }
}

/// The remote time to draw: a midpoint and a hard half-width.
#[derive(Clone, Copy, Debug, PartialEq, Eq, Structural)]
pub struct Shown {
    pub remote_unix_ns: i128,
    pub half_width_ns: u64,
    /// Still on the way to the model's midpoint.
    pub slewing: bool,
}

/// Glides the shown offset, one step per frame.
///
/// A model that is of no use clears it. A target further away than the model's half-width is
/// jumped to, as what was shown is outside the interval anyway. Any other is followed at the
/// limited rate.
#[derive(Clone, Copy, Debug, PartialEq, Eq, Structural)]
pub struct DisplaySmoother {
    pub config: SmootherConfig,
    /// The shown offset, remote minus host, in nanoseconds.
    pub shown_theta_ns: Option<i128>,
    pub last_at: Option<HostTime>,
}

/// Where a value goes from `from` towards `to` in a step of at most `max_step`.
pub open spec fn step_towards(from: int, to: int, max_step: int) -> int {
    if to - from > max_step {
        from + max_step
    } else if to - from < -max_step {
        from - max_step
    } else {
        to
    }
}

/// The offset to show after `prev` for a model whose offset is `target` with half-width
/// `half`.
pub open spec fn next_theta(prev: Option<int>, target: int, half: int, max_step: int) -> int {
    match prev {
        Some(p) => if abs(target - p) <= half {
            step_towards(p, target, max_step)
        } else {
            target
        },
        None => target,
    }
}

impl DisplaySmoother {
    pub fn new(config: SmootherConfig) -> (s: DisplaySmoother)
        ensures
            s.config == config,
            s.shown_theta_ns is None,
            s.last_at is None,
    {
        DisplaySmoother { config, shown_theta_ns: None, last_at: None }
    }

    pub fn reset(&mut self)
        ensures
            final(self).config == old(self).config,
            final(self).shown_theta_ns is None,
            final(self).last_at is None,
    {
        self.shown_theta_ns = None;
        self.last_at = None;
    }

    /// How long ago the last frame was: what the rate is multiplied with.
    pub fn since_last(&self, at: HostTime, tb: Timebase) -> (d: Duration)
        ensures
            d@ == (match self.last_at {
                Some(last) => if last.0 <= at.0 {
                    tb.nanos_of(at.0 - last.0)
                } else {
                    0
                },
                None => 0,
            }),
    {
        match self.last_at {
            Some(last) => at.saturating_duration_since(last, tb),
            None => Duration::zero(),
        }
    }

    /// The offset shown before, where there was a frame before.
    pub open spec fn previous(self) -> Option<int> {
        match (self.shown_theta_ns, self.last_at) {
            (Some(p), Some(_)) => Some(p as int),
            _ => None,
        }
    }

    /// What to show at a host instant. `max_step_ns` is the rate times the time since the
    /// last frame, cut to an integer. Nothing, and a clean slate, where the model is of no
    /// use.
    pub fn tick(
        &mut self,
        model: &ClockModel,
        at: HostTime,
        terms: DriftTerms,
        max_step_ns: i128,
        tb: Timebase,
    ) -> (shown: Option<Shown>)
        requires
            max_step_ns >= 0,
            model.usable() ==> {
                let target = model.offset_ns + terms.drift_ns;
                &&& fits_i128(target)
                &&& fits_i128(model.remote_ns(at, terms.drift_ns as int, tb))
                &&& old(self).previous() matches Some(p) ==> fits_i128(target - p) && fits_i128(
                    at.nanos(tb) + p,
                )
            },
        ensures
            final(self).config == old(self).config,
            !model.usable() ==> {
                &&& shown is None
                &&& final(self).shown_theta_ns is None
                &&& final(self).last_at is None
            },
            model.usable() ==> {
                let target = model.offset_ns + terms.drift_ns;
                let half = saturating_sum(model.half_width_ns, terms.growth_ns);
                let theta = next_theta(
                    old(self).previous(),
                    target,
                    half as int,
                    max_step_ns as int,
                );
                &&& shown is Some
                &&& shown->0.remote_unix_ns == at.nanos(tb) + theta
                &&& shown->0.half_width_ns == saturating_sum(half, abs(target - theta) as u64)
                &&& shown->0.slewing == (theta != target)
                &&& final(self).shown_theta_ns == Some(theta as i128)
                &&& final(self).last_at == Some(at)
            },
    {
        if !model.is_usable() {
            self.reset();
            return None;
        }
        let est: Estimate = model.estimate_at(at, terms, tb);
        let target: i128 = est.remote_unix_ns - at.as_nanos(tb) as i128;
        let shown: i128 = match (self.shown_theta_ns, self.last_at) {
            (Some(prev), Some(_)) => {
                let away: i128 = target - prev;
                if crate::decimal::magnitude(away) <= est.half_width_ns as u128 {
                    if away > max_step_ns {
                        prev + max_step_ns
                    } else if away < 0 && (away + max_step_ns) < 0 {
                        prev - max_step_ns
                    } else {
                        target
                    }
                } else {
                    target
                }
            },
            _ => target,
        };
        self.shown_theta_ns = Some(shown);
        self.last_at = Some(at);
        let residual: u64 = crate::decimal::magnitude(target - shown) as u64;
        Some(
            Shown {
                remote_unix_ns: at.as_nanos(tb) as i128 + shown,
                half_width_ns: est.half_width_ns.saturating_add(residual),
                slewing: residual != 0,
            },
        )
    }
}

/// The shown interval always holds the model's: whatever was shown before, everything the
/// model allows is still inside, as long as the widened half-width fits in its type.
pub proof fn the_shown_interval_holds_the_models(
    prev: Option<int>,
    target: int,
    half: u64,
    max_step: int,
    at_ns: int,
)
    requires
        max_step >= 0,
        half + abs(target - next_theta(prev, target, half as int, max_step)) <= u64::MAX,
    ensures
        ({
            let theta = next_theta(prev, target, half as int, max_step);
            let shown_half = saturating_sum(half, abs(target - theta) as u64);
            &&& at_ns + theta - shown_half <= at_ns + target - half
            &&& at_ns + target + half <= at_ns + theta + shown_half
        }),
{
}

/// Gliding is limited: while the model's offset is within its half-width of what is shown,
/// the shown offset moves by no more than the step, and never away from the target.
pub proof fn gliding_is_limited(prev: int, target: int, half: int, max_step: int)
    requires
        max_step >= 0,
        abs(target - prev) <= half,
    ensures
        ({
            let theta = next_theta(Some(prev), target, half, max_step);
            &&& abs(theta - prev) <= max_step
            &&& abs(target - theta) <= abs(target - prev)
            &&& abs(target - prev) <= max_step ==> theta == target
        }),
{
}

/// Gliding makes progress in both directions: while the target is within the half-width of
/// what is shown and further away than the step, the distance to it shrinks by exactly the
/// step, and what is shown stays on the side where it was.
pub proof fn gliding_makes_progress(prev: int, target: int, half: int, max_step: int)
    requires
        max_step >= 0,
        max_step < abs(target - prev) <= half,
    ensures
        ({
            let theta = next_theta(Some(prev), target, half, max_step);
            &&& abs(target - theta) == abs(target - prev) - max_step
            &&& prev < target ==> prev <= theta < target
            &&& prev > target ==> target < theta <= prev
        }),
{
}

/// What is outside the model's interval, or was never shown, is not glided from: the target is
/// shown at once.
pub proof fn what_is_outside_is_jumped_to(prev: Option<int>, target: int, half: int, max_step: int)
    requires
        prev matches Some(p) ==> p < target - half || p > target + half,
    ensures
        next_theta(prev, target, half, max_step) == target,
{
}

/// The offset shown after some frames with one target.
pub open spec fn glided(prev: int, target: int, half: int, max_step: int, frames: nat) -> int
    decreases frames,
{
    if frames == 0 {
        prev
    } else {
        next_theta(
            Some(glided(prev, target, half, max_step, (frames - 1) as nat)),
            target,
            half,
            max_step,
        )
    }
}

/// Gliding arrives, and stays: after as many frames as there are steps to the target, rounded
/// up, and after any more, the target itself is shown; before that the way left is the whole
/// way less the steps taken.
pub proof fn gliding_arrives(prev: int, target: int, half: int, max_step: int, frames: nat)
    requires
        max_step >= 0,
        abs(target - prev) <= half,
    ensures
        frames * max_step >= abs(target - prev) ==> frames == 0 || glided(
            prev,
            target,
            half,
            max_step,
            frames,
        ) == target,
        frames * max_step < abs(target - prev) ==> abs(
            target - glided(prev, target, half, max_step, frames),
        ) == abs(target - prev) - frames * max_step,
        abs(target - glided(prev, target, half, max_step, frames)) <= half,
    decreases frames,
{
    if frames > 0 {
        let less = (frames - 1) as nat;
        gliding_arrives(prev, target, half, max_step, less);
        assert(frames * max_step == less * max_step + max_step) by (nonlinear_arith)
            requires
                frames == less + 1,
        ;
        assert(less * max_step >= 0) by (nonlinear_arith)
            requires
                max_step >= 0,
                less >= 0,
        ;
        if less == 0 {
            assert(less * max_step == 0) by (nonlinear_arith)
                requires
                    less == 0,
            ;
        }
    } else {
        assert(frames * max_step == 0) by (nonlinear_arith)
            requires
                frames == 0,
        ;
    }
}

/// The residual never exceeds the model's half-width.
pub proof fn the_residual_is_within_the_half_width(
    prev: Option<int>,
    target: int,
    half: int,
    max_step: int,
)
    requires
        max_step >= 0,
        half >= 0,
    ensures
        abs(target - next_theta(prev, target, half, max_step)) <= half,
{
}

/// An instant of local wall time, down to the millisecond.
#[derive(Clone, Copy, Debug, PartialEq, Eq, Structural)]
pub struct WallClock {
    pub hour: u8,
    pub minute: u8,
    pub second: u8,
    pub millis: u16,
}

/// The panel shows `HH:MM:SS.mmm`.
pub const DIGIT_CELLS: usize = 12;

/// The character of one decimal place of a number.
pub open spec fn place(v: int, unit: int) -> u8 {
    (48 + v / unit % 10) as u8
}

fn place_of(v: u16, unit: u16) -> (c: u8)
    requires
        unit > 0,
    ensures
        c == place(v as int, unit as int),
{
    48 + (v / unit % 10) as u8
}

/// What is shown where the model is of no use: `--:--:--.---`.
pub fn dashes() -> (d: [u8; 12])
    ensures
        d@ == seq![45u8, 45u8, 58u8, 45u8, 45u8, 58u8, 45u8, 45u8, 46u8, 45u8, 45u8, 45u8],
{
    let d: [u8; 12] = [45, 45, 58, 45, 45, 58, 45, 45, 46, 45, 45, 45];
    assert(d@ =~= seq![45u8, 45u8, 58u8, 45u8, 45u8, 58u8, 45u8, 45u8, 46u8, 45u8, 45u8, 45u8]);
    d
}

impl WallClock {
    /// The twelve characters of `HH:MM:SS.mmm`.
    pub open spec fn shown_digits(self) -> Seq<u8> {
        seq![
            place(self.hour as int, 10),
            place(self.hour as int, 1),
            58u8,
            place(self.minute as int, 10),
            place(self.minute as int, 1),
            58u8,
            place(self.second as int, 10),
            place(self.second as int, 1),
            46u8,
            place(self.millis as int, 100),
            place(self.millis as int, 10),
            place(self.millis as int, 1),
        ]
    }

    pub fn digits(&self) -> (d: [u8; 12])
        ensures
            d@ == self.shown_digits(),
    {
        let d: [u8; 12] = [
            place_of(self.hour as u16, 10),
            place_of(self.hour as u16, 1),
            58,
            place_of(self.minute as u16, 10),
            place_of(self.minute as u16, 1),
            58,
            place_of(self.second as u16, 10),
            place_of(self.second as u16, 1),
            46,
            place_of(self.millis, 100),
            place_of(self.millis, 10),
            place_of(self.millis, 1),
        ];
        assert(d@ =~= self.shown_digits());
        d
    }

    /// A time of day.
    pub open spec fn wf(self) -> bool {
        self.hour < 24 && self.minute < 60 && self.second < 60 && self.millis < 1_000
    }

    /// The milliseconds since midnight.
    pub open spec fn millis_of_day(self) -> int {
        ((self.hour * 60 + self.minute) * 60 + self.second) * 1_000 + self.millis
    }
}

/// Nanoseconds since the Unix epoch as a local time of day.
pub open spec fn local_clock(unix_ns: int, gmtoff_secs: int) -> WallClock {
    let of_day = (unix_ns / 1_000_000_000 + gmtoff_secs) % 86_400;
    WallClock {
        hour: (of_day / 3_600) as u8,
        minute: (of_day / 60 % 60) as u8,
        second: (of_day % 60) as u8,
        millis: (unix_ns % 1_000_000_000 / 1_000_000) as u16,
    }
}

/// The whole seconds before or at an instant.
fn floor_secs(unix_ns: i128) -> (s: i128)
    ensures
        s == unix_ns as int / 1_000_000_000,
{
    let q: i128 = unix_ns / 1_000_000_000;
    if unix_ns % 1_000_000_000 < 0 {
        q - 1
    } else {
        q
    }
}

/// The nanoseconds into the second.
fn floor_sub_ns(unix_ns: i128) -> (n: i128)
    ensures
        n == unix_ns as int % 1_000_000_000,
        0 <= n < 1_000_000_000,
{
    let cut: i128 = unix_ns % 1_000_000_000;
    if cut < 0 {
        cut + 1_000_000_000
    } else {
        cut
    }
}

/// The second of the day.
fn second_of_day(secs: i128) -> (s: u32)
    ensures
        s == secs as int % 86_400,
        s < 86_400,
{
    let cut: i128 = secs % 86_400;
    if cut < 0 {
        (cut + 86_400) as u32
    } else {
        cut as u32
    }
}

/// Splits nanoseconds since the Unix epoch into a local time of day.
pub fn split_local(unix_ns: i128, gmtoff_secs: i64) -> (w: WallClock)
    ensures
        w == local_clock(unix_ns as int, gmtoff_secs as int),
        w.wf(),
{
    let of_day: u32 = second_of_day(floor_secs(unix_ns) + gmtoff_secs as i128);
    let sub_ns: i128 = floor_sub_ns(unix_ns);
    WallClock {
        hour: (of_day / 3_600) as u8,
        minute: (of_day / 60 % 60) as u8,
        second: (of_day % 60) as u8,
        millis: (sub_ns / 1_000_000) as u16,
    }
}

/// The time of day that is split out is the one that was put in: its milliseconds since
/// midnight are those of the shifted instant.
pub proof fn the_split_is_the_time_of_day(unix_ns: int, gmtoff_secs: int)
    ensures
        local_clock(unix_ns, gmtoff_secs).wf(),
        local_clock(unix_ns, gmtoff_secs).millis_of_day() == (unix_ns + gmtoff_secs * 1_000_000_000)
            / 1_000_000 % 86_400_000,
{
    let whole = unix_ns / 1_000_000_000;
    let sub = unix_ns % 1_000_000_000;
    let of_day = (whole + gmtoff_secs) % 86_400;
    let days = (whole + gmtoff_secs) / 86_400;
    assert(unix_ns + gmtoff_secs * 1_000_000_000 == (days * 86_400 + of_day) * 1_000_000_000 + sub);
    assert((unix_ns + gmtoff_secs * 1_000_000_000) / 1_000_000 == (days * 86_400 + of_day) * 1_000
        + sub / 1_000_000);
}

/// Turns instants into local time, looking the time zone's offset up once a minute: it only
/// ever changes on the hour.
#[derive(Clone, Copy, Debug, PartialEq, Eq, Structural)]
pub struct LocalTime {
    pub cached_minute: Option<i64>,
    pub gmtoff_secs: i64,
}

impl Default for LocalTime {
    fn default() -> (l: LocalTime)
        ensures
            l.cached_minute is None,
            l.gmtoff_secs == 0,
    {
        LocalTime::new()
    }
}

impl LocalTime {
    /// The second that an instant belongs to, in sixty-four bits.
    pub open spec fn second_of(unix_ns: int) -> int {
        wrap_i64(unix_ns / 1_000_000_000)
    }

    /// Whether the offset at hand is not the one of the instant's minute.
    pub open spec fn outdated(self, unix_ns: int) -> bool {
        self.cached_minute != Some((LocalTime::second_of(unix_ns) / 60) as i64)
    }

    pub fn new() -> (l: LocalTime)
        ensures
            l.cached_minute is None,
            l.gmtoff_secs == 0,
    {
        LocalTime { cached_minute: None, gmtoff_secs: 0 }
    }

    /// The Unix second to look the offset up for, where it has to be.
    pub fn lookup_second(&self, unix_ns: i128) -> (s: Option<i64>)
        ensures
            s is Some <==> self.outdated(unix_ns as int),
            s is Some ==> s->0 == LocalTime::second_of(unix_ns as int),
    {
        let secs: i64 = low_i64(floor_secs(unix_ns));
        if self.cached_minute == Some(minute_of(secs)) {
            None
        } else {
            Some(secs)
        }
    }

    /// The local time of an instant. `looked_up` is the offset for it, and is only taken over
    /// where the one at hand is outdated.
    pub fn wall(&mut self, unix_ns: i128, looked_up: i64) -> (w: WallClock)
        ensures
            final(self).gmtoff_secs == (if old(self).outdated(unix_ns as int) {
                looked_up
            } else {
                old(self).gmtoff_secs
            }),
            !final(self).outdated(unix_ns as int),
            w == local_clock(unix_ns as int, final(self).gmtoff_secs as int),
    {
        if let Some(secs) = self.lookup_second(unix_ns) {
            self.gmtoff_secs = looked_up;
            self.cached_minute = Some(minute_of(secs));
        }
        split_local(unix_ns, self.gmtoff_secs)
    }

    pub fn gmtoff_secs(&self) -> (g: i64)
        ensures
            g == self.gmtoff_secs,
    {
        self.gmtoff_secs
    }
}

/// The whole minutes before or at a second.
fn minute_of(secs: i64) -> (m: i64)
    ensures
        m == secs as int / 60,
{
    let q: i64 = secs / 60;
    if secs % 60 < 0 {
        q - 1
    } else {
        q
    }
}

/// Within a minute the offset is looked up once.
pub proof fn one_lookup_a_minute(l: LocalTime, a: int, b: int)
    requires
        !l.outdated(a),
        LocalTime::second_of(a) / 60 == LocalTime::second_of(b) / 60,
    ensures
        !l.outdated(b),
{
}

/// The cells among the first `n` whose character changes.
pub open spec fn changed_cells(before: Seq<u8>, after: Seq<u8>, n: nat) -> Seq<usize>
    decreases n,
{
    if n == 0 {
        Seq::empty()
    } else {
        let front = changed_cells(before, after, (n - 1) as nat);
        if before[n - 1] != after[n - 1] {
            front.push((n - 1) as usize)
        } else {
            front
        }
    }
}

/// The characters that the panel shows.
#[derive(Clone, Copy, Debug, PartialEq, Eq)]
pub struct DigitCells {
    pub shown: [u8; 12],
}

impl DigitCells {
    /// Shows other characters, and gives the cells that have to be drawn for it.
    pub fn set(&mut self, digits: &[u8; 12]) -> (cells: Vec<usize>)
        ensures
            final(self).shown@ == digits@,
            cells@ == changed_cells(old(self).shown@, digits@, 12),
    {
        let mut cells: Vec<usize> = Vec::new();
        let mut i: usize = 0;
        while i < 12
            invariant
                i <= 12,
                cells@ == changed_cells(self.shown@, digits@, i as nat),
            decreases 12 - i,
        {
            if self.shown[i] != digits[i] {
                cells.push(i);
            }
            i = i + 1;
        }
        self.shown = *digits;
        cells
    }
}

/// The twelve characters read back as the time they show: two digits of hours, of minutes and of
/// seconds, and three of milliseconds, with colons and a point between.
pub proof fn the_digits_are_the_time(w: WallClock)
    requires
        w.wf(),
    ensures
        ({
            let d = w.shown_digits();
            &&& d.len() == 12
            &&& (d[0] - 48) * 10 + (d[1] - 48) == w.hour
            &&& (d[3] - 48) * 10 + (d[4] - 48) == w.minute
            &&& (d[6] - 48) * 10 + (d[7] - 48) == w.second
            &&& (d[9] - 48) * 100 + (d[10] - 48) * 10 + (d[11] - 48) == w.millis
            &&& d[2] == 58 && d[5] == 58 && d[8] == 46
            &&& forall|i: int|
                0 <= i < 12 && i != 2 && i != 5 && i != 8 ==> 48 <= #[trigger] d[i] <= 57
        }),
{
}

/// The cells to draw are just those whose character changes, each once and in order.
pub proof fn the_cells_drawn_are_those_that_change(before: Seq<u8>, after: Seq<u8>, n: nat)
    requires
        n <= usize::MAX,
    ensures
        ({
            let c = changed_cells(before, after, n);
            &&& forall|i: int|
                0 <= i < n ==> (before[i] != after[i] <==> c.contains(#[trigger] (i as usize)))
            &&& forall|j: int| 0 <= j < c.len() ==> (#[trigger] c[j]) < n
            &&& forall|j: int, k: int|
                0 <= j < k < c.len() ==> (#[trigger] c[j]) < (#[trigger] c[k])
        }),
    decreases n,
{
    if n > 0 {
        let less = (n - 1) as nat;
        the_cells_drawn_are_those_that_change(before, after, less);
        let front = changed_cells(before, after, less);
        let c = changed_cells(before, after, n);
        assert forall|i: int| 0 <= i < n implies (before[i] != after[i] <==> c.contains(
            #[trigger] (i as usize),
        )) by {
            if before[i] != after[i] {
                if i < less {
                    assert(front.contains(i as usize));
                    let j = choose|j: int| 0 <= j < front.len() && front[j] == i as usize;
                    assert(c[j] == i as usize);
                } else {
                    assert(c[c.len() - 1] == i as usize);
                }
            } else if c.contains(i as usize) {
                let j = choose|j: int| 0 <= j < c.len() && c[j] == i as usize;
                if j < front.len() {
                    assert(front[j] == i as usize);
                    assert(i < less);
                    assert(front.contains(i as usize));
                }
            }
        }
    }
}

/// In another minute the offset is looked up again.
pub proof fn another_minute_is_looked_up(l: LocalTime, a: int, b: int)
    requires
        !l.outdated(a),
        0 <= a < 0x4000_0000_0000_0000 * 1_000_000_000,
        0 <= b < 0x4000_0000_0000_0000 * 1_000_000_000,
    ensures
        l.outdated(b) <==> a / 60_000_000_000 != b / 60_000_000_000,
{
    assert(a / 1_000_000_000 / 60 == a / 60_000_000_000);
    assert(b / 1_000_000_000 / 60 == b / 60_000_000_000);
}

/// Every frame shows a time within the interval that it reports, and the interval holds the
/// model's: what is shown is off the model's time by no more than the widening.
pub proof fn what_is_shown_is_within_its_interval(
    s: &mut DisplaySmoother,
    model: ClockModel,
    at: HostTime,
    terms: DriftTerms,
    max_step_ns: i128,
    tb: Timebase,
    shown: Option<Shown>,
)
    requires
        call_ensures(DisplaySmoother::tick, (s, &model, at, terms, max_step_ns, tb), shown),
        max_step_ns >= 0,
        model.half_width_ns + terms.growth_ns <= 0x7fff_ffff_ffff_ffff,
    ensures
        shown is Some <==> model.usable(),
        shown is None ==> final(s).shown_theta_ns is None,
        shown matches Some(x) ==> {
            let off = x.remote_unix_ns - model.remote_ns(at, terms.drift_ns as int, tb);
            &&& x.half_width_ns == model.half_width_ns + terms.growth_ns + abs(off)
            &&& x.slewing <==> off != 0
            &&& final(s).shown_theta_ns == Some((x.remote_unix_ns - at.nanos(tb)) as i128)
        },
{
    if model.usable() {
        let target = model.offset_ns + terms.drift_ns;
        let half = saturating_sum(model.half_width_ns, terms.growth_ns);
        the_residual_is_within_the_half_width(
            old(s).previous(),
            target,
            half as int,
            max_step_ns as int,
        );
    }
}

/// After the digits are set they are shown, whatever was shown before.
pub proof fn digits_set_are_shown(c: &mut DigitCells, digits: &[u8; 12], cells: Vec<usize>)
    requires
        call_ensures(DigitCells::set, (c, digits), cells),
    ensures
        final(c).shown@ == digits@,
        old(c).shown@ == digits@ ==> cells@ == changed_cells(digits@, digits@, 12),
{
}

/// The time since the last frame is that between the two, or nothing where there was none or it
/// is still to come.
pub proof fn the_first_frame_comes_after_no_time(
    s: DisplaySmoother,
    at: HostTime,
    tb: Timebase,
    d: Duration,
)
    requires
        call_ensures(DisplaySmoother::since_last, (&s, at, tb), d),
    ensures
        s.last_at is None ==> d@ == 0,
        s.last_at matches Some(last) ==> (last.0 > at.0 ==> d@ == 0) && (last.0 <= at.0 ==> d@
            == tb.nanos_of(at.0 - last.0)),
{
}

} // verus!
