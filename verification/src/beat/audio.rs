//! Which ticks sound in an audio buffer.
//!
//! Rendering keeps no state: every buffer asks anew which ticks overlap it, so nothing has
//! to be remembered across buffers and their size may change. The waveform itself is
//! floating point and is written by the program.

use crate::beat::{BeatPlan, MAX_TICKS};
use crate::duration::Duration;
use crate::time::{HostTime, Timebase};
use vstd::prelude::*;

verus! {

/// The ramp at the front of a tick, in milliseconds.
pub const ATTACK_MS: u64 = 1;

/// The ramp at the end of a tick, in milliseconds.
pub const RELEASE_MS: u64 = 5;

/// How long the ticks sound. The last is longer, so that it is not taken for another.
#[derive(Clone, Copy, Debug, PartialEq, Eq, Structural)]
pub struct TickLengths {
    pub tick: Duration,
    pub final_tick: Duration,
}

impl Default for TickLengths {
    fn default() -> (l: TickLengths)
        ensures
            l.tick@ == 30_000_000,
            l.final_tick@ == 200_000_000,
    {
        TickLengths { tick: Duration::from_millis(30), final_tick: Duration::from_millis(200) }
    }
}

impl TickLengths {
    /// How long tick `k` of a plan sounds.
    pub open spec fn of(self, plan: BeatPlan, k: int) -> Duration {
        if k == plan.ticks - 1 {
            self.final_tick
        } else {
            self.tick
        }
    }
}

/// A tick that sounds in a buffer.
#[derive(Clone, Copy, Debug, PartialEq, Eq, Structural)]
pub struct Audible {
    pub k: u32,
    /// Its onset after the front of the buffer, in nanoseconds; negative where it began in
    /// an earlier one.
    pub rel_ns: i128,
    pub length: Duration,
}

/// The ticks that sound in a buffer, and the onsets among them.
pub struct BufferTicks {
    pub audible: Vec<Audible>,
    /// Bit `k` is set where tick `k` begins in this buffer.
    pub onsets: u32,
}

/// Whether a tick that begins `rel` after the front of a buffer and lasts `length` sounds in
/// its `span` nanoseconds.
pub open spec fn sounds(rel: int, length: int, span: int) -> bool {
    rel + length > 0 && rel < span
}

/// Whether such a tick begins in the buffer.
pub open spec fn begins(rel: int, length: int, span: int) -> bool {
    sounds(rel, length, span) && rel >= 0
}

/// The onset of tick `k` after an instant, in nanoseconds.
pub open spec fn onset_after(plan: BeatPlan, k: int, start: HostTime, tb: Timebase) -> int {
    plan.landing(k, tb).nanos(tb) - start.nanos(tb)
}

/// The first `n` ticks of a plan that sound in a buffer, in order.
pub open spec fn audible_among(
    plan: BeatPlan,
    lengths: TickLengths,
    start: HostTime,
    span: int,
    n: nat,
    tb: Timebase,
) -> Seq<Audible>
    decreases n,
{
    if n == 0 {
        Seq::empty()
    } else {
        let k = n - 1;
        let front = audible_among(plan, lengths, start, span, k as nat, tb);
        let rel = onset_after(plan, k, start, tb);
        if sounds(rel, lengths.of(plan, k)@, span) {
            front.push(
                Audible { k: k as u32, rel_ns: rel as i128, length: lengths.of(plan, k) },
            )
        } else {
            front
        }
    }
}

/// Whether a bit is set.
pub open spec fn bit(mask: u32, k: int) -> bool {
    mask & (1u32 << (k as u32)) != 0
}

proof fn lemma_setting_a_bit(mask: u32, k: u32)
    requires
        k < 32,
    ensures
        forall|j: int| 0 <= j < 32 ==> #[trigger] bit(mask | (1u32 << k), j) == (bit(mask, j) || j
            == k),
        forall|j: int| 0 <= j < 32 ==> !#[trigger] bit(0u32, j),
{
    assert forall|j: int| 0 <= j < 32 implies #[trigger] bit(mask | (1u32 << k), j) == (bit(mask, j)
        || j == k) by {
        let i = j as u32;
        assert((mask | (1u32 << k)) & (1u32 << i) != 0 <==> (mask & (1u32 << i) != 0 || i == k))
            by (bit_vector)
            requires
                k < 32,
                i < 32,
        ;
    }
    assert forall|j: int| 0 <= j < 32 implies !#[trigger] bit(0u32, j) by {
        let i = j as u32;
        assert(0u32 & (1u32 << i) == 0) by (bit_vector);
    }
}

/// The ticks that sound in the `span_ns` nanoseconds from `start`, when the first frame of
/// the buffer leaves the speaker.
pub fn ticks_in_buffer(
    plan: &BeatPlan,
    lengths: &TickLengths,
    start: HostTime,
    span_ns: i128,
    tb: Timebase,
) -> (r: BufferTicks)
    requires
        plan.wf(),
        plan.ticks <= MAX_TICKS,
    ensures
        r.audible@ == audible_among(*plan, *lengths, start, span_ns as int, plan.ticks as nat, tb),
        forall|k: int|
            0 <= k < 32 ==> #[trigger] bit(r.onsets, k) == (k < plan.ticks && begins(
                onset_after(*plan, k, start, tb),
                lengths.of(*plan, k)@,
                span_ns as int,
            )),
{
    let start_ns: i128 = start.as_nanos(tb) as i128;
    let mut audible: Vec<Audible> = Vec::new();
    let mut onsets: u32 = 0;
    let mut k: u32 = 0;
    proof {
        lemma_setting_a_bit(0, 0);
    }
    while k < plan.ticks
        invariant
            plan.wf(),
            k <= plan.ticks <= MAX_TICKS,
            start_ns == start.nanos(tb),
            audible@ == audible_among(*plan, *lengths, start, span_ns as int, k as nat, tb),
            forall|j: int|
                0 <= j < 32 ==> #[trigger] bit(onsets, j) == (j < k && begins(
                    onset_after(*plan, j, start, tb),
                    lengths.of(*plan, j)@,
                    span_ns as int,
                )),
        decreases plan.ticks - k,
    {
        let length: Duration = if k == plan.ticks - 1 {
            lengths.final_tick
        } else {
            lengths.tick
        };
        let length_ns: i128 = length.as_nanos() as i128;
        let rel_ns: i128 = plan.tick_at(k, tb).as_nanos(tb) as i128 - start_ns;
        if rel_ns + length_ns > 0 && rel_ns < span_ns {
            if rel_ns >= 0 {
                proof {
                    lemma_setting_a_bit(onsets, k);
                }
                onsets = onsets | (1u32 << k);
            }
            audible.push(Audible { k, rel_ns, length });
        }
        k = k + 1;
    }
    BufferTicks { audible, onsets }
}

/// How a stretch of sound is cut into buffers does not matter: a tick sounds in the whole
/// just where it sounds in the first part or the second, and it begins in exactly one of
/// them where it begins in the whole.
pub proof fn cutting_a_buffer_changes_nothing(rel: int, length: int, first: int, second: int)
    requires
        length > 0,
        first >= 0,
        second >= 0,
    ensures
        sounds(rel, length, first + second) == (sounds(rel, length, first) || sounds(
            rel - first,
            length,
            second,
        )),
        begins(rel, length, first + second) == (begins(rel, length, first) || begins(
            rel - first,
            length,
            second,
        )),
        !(begins(rel, length, first) && begins(rel - first, length, second)),
{
}

/// The ticks of a buffer are just those that sound in it: tick `k` is among them where it lands
/// before the buffer's end and is not over at its front; each once, in order, with its onset
/// counted from the front and its length, the last tick's own.
pub proof fn the_ticks_of_a_buffer_are_those_that_sound(
    plan: BeatPlan,
    lengths: TickLengths,
    start: HostTime,
    span: int,
    n: nat,
    tb: Timebase,
)
    requires
        n <= plan.ticks,
    ensures
        ({
            let a = audible_among(plan, lengths, start, span, n, tb);
            &&& forall|i: int|
                #![trigger a[i]]
                0 <= i < a.len() ==> {
                    let k = a[i].k as int;
                    let lands = plan.landing(k, tb).nanos(tb);
                    &&& k < n
                    &&& lands < start.nanos(tb) + span
                    &&& lands + a[i].length@ > start.nanos(tb)
                    &&& a[i].rel_ns == lands - start.nanos(tb)
                    &&& a[i].length == (if k + 1 == plan.ticks {
                        lengths.final_tick
                    } else {
                        lengths.tick
                    })
                }
            &&& forall|i: int, j: int|
                0 <= i < j < a.len() ==> (#[trigger] a[i]).k < (#[trigger] a[j]).k
            &&& forall|k: int|
                0 <= k < n && (#[trigger] plan.landing(k, tb)).nanos(tb) < start.nanos(tb) + span
                    && plan.landing(k, tb).nanos(tb) + (if k + 1 == plan.ticks {
                    lengths.final_tick@
                } else {
                    lengths.tick@
                }) > start.nanos(tb) ==> exists|i: int| 0 <= i < a.len() && (#[trigger] a[i]).k == k
        }),
    decreases n,
{
    if n > 0 {
        let less = (n - 1) as nat;
        the_ticks_of_a_buffer_are_those_that_sound(plan, lengths, start, span, less, tb);
        let front = audible_among(plan, lengths, start, span, less, tb);
        let a = audible_among(plan, lengths, start, span, n, tb);
        assert forall|i: int| 0 <= i < front.len() implies #[trigger] a[i] == front[i] by {}
        assert forall|k: int|
            0 <= k < n && (#[trigger] plan.landing(k, tb)).nanos(tb) < start.nanos(tb) + span
                && plan.landing(k, tb).nanos(tb) + (if k + 1 == plan.ticks {
                lengths.final_tick@
            } else {
                lengths.tick@
            }) > start.nanos(tb) implies exists|i: int|
            0 <= i < a.len() && (#[trigger] a[i]).k == k by {
            if k < less {
                let i = choose|i: int| 0 <= i < front.len() && (#[trigger] front[i]).k == k;
                assert(a[i].k == k);
            } else {
                assert(a[a.len() - 1].k == k);
            }
        }
    }
}

/// An onset is in the buffer that its instant is in.
pub proof fn an_onset_is_in_its_buffer(rel: int, length: int, span: int)
    requires
        length > 0,
    ensures
        begins(rel, length, span) <==> 0 <= rel < span,
{
}

} // verus!
