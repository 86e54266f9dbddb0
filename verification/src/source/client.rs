//! One NTP query, between the socket that sends and receives and the packets of
//! [`ntp`](super::ntp).
//!
//! The program sends the request and waits; each time something comes back, or nothing
//! does, [`on_receive`] says whether to go on waiting.

use crate::model::SourceKind;
use crate::source::ntp::{
    exchange_gives, packet_timestamp, sample_from_exchange, timestamp_at, Exchange, NtpError,
    NtpResponse, PACKET_LEN,
};
use crate::source::udp::Received;
use crate::time::{HostTime, Timebase};
use std::collections::hash_map::RandomState;
use std::collections::HashSet;
use std::hash::BuildHasher;
use vstd::prelude::*;
use vstd::string::*;

verus! {

#[derive(Debug, Clone, PartialEq, Eq)]
pub enum QueryError {
    /// The socket failed, with the system's words for it.
    Io(String),
    Ntp(NtpError),
    /// No response to this request came in time.
    NoMatchingResponse,
}

impl QueryError {
    pub open spec fn text(self) -> Seq<char> {
        match self {
            QueryError::Io(e) => "I/O："@ + e@,
            QueryError::Ntp(e) => "NTP："@ + e.text(),
            QueryError::NoMatchingResponse => "逾時前沒有吻合的回應"@,
        }
    }

    /// The error in words.
    pub fn message(&self) -> (s: String)
        ensures
            s@ == self.text(),
    {
        match self {
            QueryError::Io(e) => {
                let mut s: String = "I/O：".to_owned();
                s.append(e.as_str());
                s
            },
            QueryError::Ntp(e) => {
                let mut s: String = "NTP：".to_owned();
                s.append(e.message().as_str());
                s
            },
            QueryError::NoMatchingResponse => "逾時前沒有吻合的回應".to_owned(),
        }
    }
}

/// [`RandomState::new`] seeds a hasher from chance: nothing is known of what it makes.
pub assume_specification[ RandomState::new ]() -> RandomState;

/// Calls `hash_one` of a randomly seeded hasher. The hash depends on the seed, so nothing
/// is said of it.
#[verifier::external_body]
fn seeded_hash(state: &RandomState, n: u64) -> u64 {
    state.hash_one(n)
}

/// Gives out nonces: hashes of an ever-rising count under a seed drawn afresh each time. Those
/// given out are remembered, so that none comes twice.
pub struct NonceSource {
    pub count: u64,
    pub given: HashSet<u64>,
}

impl NonceSource {
    pub open spec fn wf(&self) -> bool {
        self.given@.finite()
    }

    pub fn new() -> (s: NonceSource)
        ensures
            s.wf(),
            s.count == 1,
            s.given@ == Set::<u64>::empty(),
    {
        broadcast use vstd::std_specs::hash::group_hash_axioms;

        NonceSource { count: 1, given: HashSet::new() }
    }

    /// The next nonce. Zero means "no timestamp" to NTP and is never given, nor is one that was
    /// given before; the count that is hashed goes up by one each time, around its end. Which
    /// number comes rests on the hasher's seed.
    pub fn next_nonce(&mut self) -> (nonce: u64)
        requires
            old(self).wf(),
            old(self).given@.len() < u64::MAX,
        ensures
            final(self).wf(),
            nonce != 0,
            !old(self).given@.contains(nonce),
            final(self).given@ == old(self).given@.insert(nonce),
            final(self).count == (if old(self).count == u64::MAX {
                0
            } else {
                (old(self).count + 1) as u64
            }),
    {
        broadcast use vstd::std_specs::hash::group_hash_axioms;

        let n: u64 = self.count;
        self.count = n.wrapping_add(1);
        let nonce: u64 = unused(&self.given, seeded_hash(&RandomState::new(), n));
        self.given.insert(nonce);
        nonce
    }
}

/// The number some steps after another that is not zero, going round past zero.
pub open spec fn steps_on(start: u64, steps: int) -> u64 {
    if start + steps <= u64::MAX {
        (start + steps) as u64
    } else {
        (start + steps - u64::MAX) as u64
    }
}

/// Whether a number is the first from `start` on that was not given.
pub open spec fn first_unused(given: Set<u64>, start: u64, nonce: u64) -> bool {
    &&& !given.contains(nonce)
    &&& exists|k: int|
        #![trigger steps_on(start, k)]
        0 <= k < u64::MAX && nonce == steps_on(start, k) && forall|i: int|
            0 <= i < k ==> given.contains(#[trigger] steps_on(start, i))
}

/// A hash as a nonce that was not given yet: the hash itself where it can be one, else the next
/// number that can.
pub fn unused(given: &HashSet<u64>, hash: u64) -> (nonce: u64)
    requires
        given@.finite(),
        given@.len() < u64::MAX,
    ensures
        nonce != 0,
        !given@.contains(nonce),
        hash != 0 && !given@.contains(hash) ==> nonce == hash,
        first_unused(
            given@,
            if hash == 0 {
                1
            } else {
                hash
            },
            nonce,
        ),
{
    broadcast use vstd::std_specs::hash::group_hash_axioms;

    let start: u64 = nonzero(hash);
    let mut nonce: u64 = start;
    let ghost mut k: int = 0;
    let ghost mut seen: Set<u64> = Set::empty();
    while given.contains(&nonce)
        invariant
            start != 0,
            nonce == steps_on(start, k),
            0 <= k <= given@.len() < u64::MAX,
            given@.finite(),
            seen.finite(),
            seen.len() == k,
            seen.subset_of(given@),
            forall|x: u64|
                seen.contains(x) ==> exists|i: int| 0 <= i < k && x == #[trigger] steps_on(start, i),
            forall|i: int| 0 <= i < k ==> given@.contains(#[trigger] steps_on(start, i)),
            vstd::std_specs::hash::obeys_key_model::<u64>(),
            vstd::std_specs::hash::builds_valid_hashers::<RandomState>(),
        decreases given@.len() - k,
    {
        proof {
            if seen.contains(nonce) {
                let i = choose|i: int| 0 <= i < k && nonce == #[trigger] steps_on(start, i);
                assert(steps_on(start, i) != steps_on(start, k));
            }
            let more = seen.insert(nonce);
            assert(more.subset_of(given@));
            vstd::set_lib::lemma_len_subset(more, given@);
            assert forall|x: u64| more.contains(x) implies exists|i: int|
                0 <= i < k + 1 && x == #[trigger] steps_on(start, i) by {
                if x == nonce {
                    assert(x == steps_on(start, k));
                } else {
                    let i = choose|i: int| 0 <= i < k && x == #[trigger] steps_on(start, i);
                    assert(x == steps_on(start, i));
                }
            }
            seen = more;
            k = k + 1;
        }
        nonce = if nonce == u64::MAX {
            1
        } else {
            nonce + 1
        };
    }
    assert(first_unused(given@, start, nonce)) by {
        assert(nonce == steps_on(start, k));
    }
    nonce
}

/// Any two nonces of a source differ: each is new to what was given before it, and is among
/// what was given after. `given` is what the source has given before each call and at the end.
pub proof fn nonces_never_repeat(given: Seq<Set<u64>>, nonces: Seq<u64>, i: int, j: int)
    requires
        given.len() == nonces.len() + 1,
        forall|k: int|
            0 <= k < nonces.len() ==> !(#[trigger] given[k]).contains(nonces[k]) && given[k + 1]
                == given[k].insert(nonces[k]),
        0 <= i < j < nonces.len(),
    ensures
        nonces[i] != nonces[j],
{
    lemma_given_stays(given, nonces, i, j);
    assert(!given[j].contains(nonces[j]));
}

proof fn lemma_given_stays(given: Seq<Set<u64>>, nonces: Seq<u64>, i: int, j: int)
    requires
        given.len() == nonces.len() + 1,
        forall|k: int|
            0 <= k < nonces.len() ==> !(#[trigger] given[k]).contains(nonces[k]) && given[k + 1]
                == given[k].insert(nonces[k]),
        0 <= i < j <= nonces.len(),
    ensures
        given[j].contains(nonces[i]),
    decreases j,
{
    if j == i + 1 {
        assert(given[i + 1] == given[i].insert(nonces[i]));
    } else {
        lemma_given_stays(given, nonces, i, j - 1);
        assert(given[j - 1 + 1] == given[j - 1].insert(nonces[j - 1]));
    }
}

/// A hash as a nonce: one in place of zero, every other value as it is.
pub fn nonzero(hash: u64) -> (nonce: u64)
    ensures
        nonce == (if hash == 0 {
            1
        } else {
            hash
        }),
{
    if hash == 0 {
        1
    } else {
        hash
    }
}

/// What came of waiting for a packet.
pub enum Reception {
    /// A packet, its bytes at the front of the buffer.
    Packet(Received),
    /// Nothing within the socket's time.
    TimedOut,
    /// The socket failed, with the system's words for it.
    Failed(String),
}

/// What to do after waiting for a packet.
pub enum Reply {
    /// Not the response to this request: wait on.
    KeepWaiting,
    Done(Result<Exchange, QueryError>),
}

/// What a packet of the given bytes, arrived at `arrival`, means to a query.
pub open spec fn packet_gives(
    source: SourceKind,
    nonce: u64,
    sent: HostTime,
    arrival: HostTime,
    bytes: Seq<u8>,
    tb: Timebase,
    reply: Reply,
) -> bool {
    if bytes.len() < PACKET_LEN || packet_timestamp(bytes, 24).0 != nonce {
        reply matches Reply::KeepWaiting
    } else {
        exists|parsed: Result<NtpResponse, NtpError>|
            #![trigger NtpResponse::parse_gives(bytes, parsed)]
            NtpResponse::parse_gives(bytes, parsed) && match parsed {
                Err(e) => reply == Reply::Done(Err(QueryError::Ntp(e))),
                Ok(response) => exists|made: Result<Exchange, NtpError>|
                    #![trigger exchange_gives(source, nonce, sent, arrival, response, tb, made)]
                    exchange_gives(source, nonce, sent, arrival, response, tb, made) && match made {
                        Ok(x) => reply == Reply::Done(Ok(x)),
                        Err(e) => reply == Reply::Done(Err(QueryError::Ntp(e))),
                    },
            }
    }
}

/// Takes what came of waiting and says what it means to the query that sent `nonce` at
/// `sent`. Packets that are too short or answer another request are passed over until the
/// socket's time runs out, whatever else is wrong with them.
pub fn on_receive(
    source: SourceKind,
    nonce: u64,
    sent: HostTime,
    reception: Reception,
    buf: &[u8],
    tb: Timebase,
) -> (reply: Reply)
    requires
        reception matches Reception::Packet(r) ==> r.len <= buf@.len(),
    ensures
        reception matches Reception::Failed(e) ==> reply == Reply::Done(Err(QueryError::Io(e))),
        reception matches Reception::TimedOut ==> reply == Reply::Done(
            Err(QueryError::NoMatchingResponse),
        ),
        reception matches Reception::Packet(r) ==> packet_gives(
            source,
            nonce,
            sent,
            r.arrival_spec(),
            buf@.subrange(0, r.len as int),
            tb,
            reply,
        ),
        reply matches Reply::Done(Ok(x)) ==> x.sample.modest() && x.sample.source == source,
{
    let r: Received = match reception {
        Reception::Failed(e) => {
            return Reply::Done(Err(QueryError::Io(e)));
        },
        Reception::TimedOut => {
            return Reply::Done(Err(QueryError::NoMatchingResponse));
        },
        Reception::Packet(r) => r,
    };
    if r.len < PACKET_LEN {
        return Reply::KeepWaiting;
    }
    let packet: &[u8] = vstd::slice::slice_subrange(buf, 0, r.len);
    if timestamp_at(packet, 24).0 != nonce {
        return Reply::KeepWaiting;
    }
    let parsed: Result<NtpResponse, NtpError> = NtpResponse::parse(packet);
    let ghost seen = parsed;
    match parsed {
        Err(e) => {
            assert(NtpResponse::parse_gives(buf@.subrange(0, r.len as int), seen));
            Reply::Done(Err(QueryError::Ntp(e)))
        },
        Ok(response) => {
            assert(NtpResponse::parse_gives(buf@.subrange(0, r.len as int), seen));
            let ghost answered = response;
            let made: Result<Exchange, NtpError> = sample_from_exchange(
                source,
                nonce,
                sent,
                r.arrival(),
                response,
                tb,
            );
            assert(exchange_gives(source, nonce, sent, r.arrival_spec(), answered, tb, made));
            match made {
                Ok(x) => Reply::Done(Ok(x)),
                Err(e) => Reply::Done(Err(QueryError::Ntp(e))),
            }
        },
    }
}

/// Whether a burst of `count` queries pauses after the one numbered `i`: after each but
/// the last.
pub fn pauses_after(i: usize, count: usize) -> (b: bool)
    requires
        i < count,
    ensures
        b == (i + 1 < count),
{
    i + 1 < count
}

/// Packets that do not answer the request are passed over, whatever they hold, and the answer to
/// it never is: it ends the query.
pub proof fn only_the_answer_ends_a_query(
    source: SourceKind,
    nonce: u64,
    sent: HostTime,
    arrival: HostTime,
    bytes: Seq<u8>,
    tb: Timebase,
    reply: Reply,
)
    requires
        packet_gives(source, nonce, sent, arrival, bytes, tb, reply),
    ensures
        reply is KeepWaiting <==> bytes.len() < 48 || crate::source::ntp::be_value(
            bytes.subrange(24, 32),
        ) != nonce,
{
    if bytes.len() >= 48 {
        crate::source::ntp::eight_bytes_fit(bytes.subrange(24, 32));
    }
}

/// A query that ends with a sample ends with that of its own exchange: sent when it was sent,
/// received when the packet arrived, from a response that decodes the packet.
pub proof fn a_sample_is_of_its_own_exchange(
    source: SourceKind,
    nonce: u64,
    sent: HostTime,
    arrival: HostTime,
    bytes: Seq<u8>,
    tb: Timebase,
    x: Exchange,
)
    requires
        packet_gives(source, nonce, sent, arrival, bytes, tb, Reply::Done(Ok(x))),
    ensures
        x.sent == sent,
        x.received == arrival,
        x.sample.source == source,
        x.response.decodes(bytes),
        x.response.origin.0 == nonce,
{
}

/// Going on from a number leads through all the others before it comes back, and never through
/// zero.
pub proof fn steps_lead_through_all_numbers(start: u64, a: int, b: int)
    requires
        start != 0,
        0 <= a < b < u64::MAX,
    ensures
        steps_on(start, 0) == start,
        steps_on(start, a) != 0,
        steps_on(start, a) != steps_on(start, b),
        steps_on(start, a + 1) == (if steps_on(start, a) == u64::MAX {
            1
        } else {
            (steps_on(start, a) + 1) as u64
        }),
{
}

/// A nonce is never zero, is none of those given before, and is among those given after.
pub proof fn a_nonce_is_new(s: &mut NonceSource, nonce: u64)
    requires
        call_ensures(NonceSource::next_nonce, (s,), nonce),
    ensures
        nonce != 0,
        !old(s).given@.contains(nonce),
        final(s).given@.contains(nonce),
        forall|x: u64| old(s).given@.contains(x) ==> #[trigger] final(s).given@.contains(x),
{
}

/// What did not come in time is no response, and what the socket says is handed on.
pub proof fn waiting_in_vain_ends_a_query(
    source: SourceKind,
    nonce: u64,
    sent: HostTime,
    reception: Reception,
    buf: Seq<u8>,
    slice: &[u8],
    tb: Timebase,
    reply: Reply,
)
    requires
        slice@ == buf,
        call_ensures(on_receive, (source, nonce, sent, reception, slice, tb), reply),
    ensures
        reception is TimedOut ==> reply == Reply::Done(Err(QueryError::NoMatchingResponse)),
        reception matches Reception::Failed(e) ==> reply == Reply::Done(Err(QueryError::Io(e))),
        reply is KeepWaiting ==> reception is Packet,
{
}

/// There is a pause between two queries, and none after the last.
pub proof fn pauses_lie_between_queries(i: usize, count: usize, pauses: bool)
    requires
        i < count,
        call_ensures(pauses_after, (i, count), pauses),
    ensures
        !pauses <==> i == count - 1,
{
}

/// A hash that is not zero is kept, and none is zero afterwards.
pub proof fn only_zero_is_replaced(hash: u64, nonce: u64)
    requires
        call_ensures(nonzero, (hash,), nonce),
    ensures
        nonce != 0,
        hash != 0 ==> nonce == hash,
{
}

/// A number that is not taken is used as it is, and one that is gives way to the next that is
/// not: there is only one such.
pub proof fn the_first_number_not_taken_is_used(given: Set<u64>, start: u64, a: u64, b: u64)
    requires
        first_unused(given, start, a),
        start != 0,
    ensures
        !given.contains(a),
        !given.contains(start) ==> a == start,
        first_unused(given, start, b) ==> a == b,
{
    let k = choose|k: int|
        #![trigger steps_on(start, k)]
        0 <= k < u64::MAX && a == steps_on(start, k) && forall|i: int|
            0 <= i < k ==> given.contains(#[trigger] steps_on(start, i));
    if !given.contains(start) && k > 0 {
        assert(given.contains(steps_on(start, 0)));
    }
    if first_unused(given, start, b) {
        let l = choose|l: int|
            #![trigger steps_on(start, l)]
            0 <= l < u64::MAX && b == steps_on(start, l) && forall|i: int|
                0 <= i < l ==> given.contains(#[trigger] steps_on(start, i));
        if k < l {
            assert(given.contains(steps_on(start, k)));
        } else if l < k {
            assert(given.contains(steps_on(start, l)));
        }
    }
}

/// Of what was read only the packet counts, and it is judged by the moment it arrived.
pub proof fn only_what_was_received_is_judged(
    source: SourceKind,
    nonce: u64,
    sent: HostTime,
    r: Received,
    slice: &[u8],
    tb: Timebase,
    reply: Reply,
)
    requires
        r.len <= slice@.len(),
        call_ensures(on_receive, (source, nonce, sent, Reception::Packet(r), slice, tb), reply),
    ensures
        r.len < 48 ==> reply is KeepWaiting,
        r.len >= 48 ==> (reply is KeepWaiting <==> crate::source::ntp::be_value(
            slice@.subrange(24, 32),
        ) != nonce),
        reply matches Reply::Done(Ok(x)) ==> x.sample.source == source,
{
    let bytes = slice@.subrange(0, r.len as int);
    only_the_answer_ends_a_query(source, nonce, sent, r.arrival_spec(), bytes, tb, reply);
    if r.len >= 48 {
        assert(bytes.subrange(24, 32) =~= slice@.subrange(24, 32));
    }
}

} // verus!
