//! How each server has been doing, for the menu.

use crate::arith::{fits_i128, two64};
use crate::duration::Duration;
use crate::source::client::QueryError;
use crate::source::half_towards_zero;
use crate::source::ntp::{dotted, lossy_text, without_trailing_zeros, Exchange, NtpResponse};
use crate::source::udp::AddressV4;
use crate::sync::settings::{texts, SyncSettings};
use crate::time::HostTime;
use vstd::prelude::*;
use vstd::string::*;

verus! {

/// One server.
#[derive(Clone, Debug, PartialEq, Eq)]
pub struct ServerStats {
    pub host: String,
    /// The address it last resolved to.
    pub addr: Option<AddressV4>,
    pub ok: u64,
    pub failed: u64,
    pub last_round_trip: Option<Duration>,
    pub last_half_width_ns: Option<u64>,
    pub last_stratum: Option<u8>,
    pub last_reference_id: Option<String>,
    /// Why it last failed; nothing after a success.
    pub last_error: Option<String>,
    /// When it last succeeded or failed.
    pub last_at: Option<HostTime>,
    pub last_success_at: Option<HostTime>,
}

/// The same, with texts as they read.
#[verifier::ext_equal]
pub struct StatsView {
    pub host: Seq<char>,
    pub addr: Option<AddressV4>,
    pub ok: int,
    pub failed: int,
    pub last_round_trip: Option<Duration>,
    pub last_half_width_ns: Option<u64>,
    pub last_stratum: Option<u8>,
    pub last_reference_id: Option<Seq<char>>,
    pub last_error: Option<Seq<char>>,
    pub last_at: Option<HostTime>,
    pub last_success_at: Option<HostTime>,
}

/// An optional text as it reads.
pub open spec fn text_of(o: Option<String>) -> Option<Seq<char>> {
    match o {
        Some(s) => Some(s@),
        None => None,
    }
}

impl View for ServerStats {
    type V = StatsView;

    open spec fn view(&self) -> StatsView {
        StatsView {
            host: self.host@,
            addr: self.addr,
            ok: self.ok as int,
            failed: self.failed as int,
            last_round_trip: self.last_round_trip,
            last_half_width_ns: self.last_half_width_ns,
            last_stratum: self.last_stratum,
            last_reference_id: text_of(self.last_reference_id),
            last_error: text_of(self.last_error),
            last_at: self.last_at,
            last_success_at: self.last_success_at,
        }
    }
}

/// The readable reference id of a response.
pub open spec fn reference_text(r: NtpResponse) -> Seq<char> {
    if r.stratum == 1 {
        without_trailing_zeros(lossy_text(r.reference_id@))
    } else {
        dotted(r.reference_id@)
    }
}

impl StatsView {
    /// A server of which nothing is known yet.
    pub open spec fn fresh(host: Seq<char>) -> StatsView {
        StatsView {
            host,
            addr: None,
            ok: 0,
            failed: 0,
            last_round_trip: None,
            last_half_width_ns: None,
            last_stratum: None,
            last_reference_id: None,
            last_error: None,
            last_at: None,
            last_success_at: None,
        }
    }

    /// After a success: one more, its figures, and no error any more.
    pub open spec fn after_ok(self, ex: Exchange, now: HostTime) -> StatsView {
        StatsView {
            ok: self.ok + 1,
            last_round_trip: Some(ex.round_trip),
            last_half_width_ns: Some(
                (half_towards_zero(ex.sample.hi_ns - ex.sample.lo_ns) % two64()) as u64,
            ),
            last_stratum: Some(ex.response.stratum),
            last_reference_id: Some(reference_text(ex.response)),
            last_error: None,
            last_at: Some(now),
            last_success_at: Some(now),
            ..self
        }
    }

    /// After a failure: one more, and why. What the last success left stays.
    pub open spec fn after_failure(self, error: Seq<char>, now: HostTime) -> StatsView {
        StatsView {
            failed: self.failed + 1,
            last_error: Some(error),
            last_at: Some(now),
            ..self
        }
    }

    /// After the outcome of a query. Silence is put down as a timeout.
    pub open spec fn after(self, result: Result<Exchange, QueryError>, now: HostTime) -> StatsView {
        match result {
            Ok(ex) => self.after_ok(ex, now),
            Err(QueryError::NoMatchingResponse) => self.after_failure("逾時"@, now),
            Err(e) => self.after_failure(e.text(), now),
        }
    }
}

/// An optional text, copied.
fn copy_text(o: &Option<String>) -> (c: Option<String>)
    ensures
        text_of(c) == text_of(*o),
{
    match o {
        Some(s) => Some(s.clone()),
        None => None,
    }
}

impl ServerStats {
    pub fn new(host: &str) -> (s: ServerStats)
        ensures
            s@ == StatsView::fresh(host@),
    {
        ServerStats {
            host: host.to_owned(),
            addr: None,
            ok: 0,
            failed: 0,
            last_round_trip: None,
            last_half_width_ns: None,
            last_stratum: None,
            last_reference_id: None,
            last_error: None,
            last_at: None,
            last_success_at: None,
        }
    }

    /// A copy that reads the same.
    pub fn copy(&self) -> (c: ServerStats)
        ensures
            c@ == self@,
    {
        ServerStats {
            host: self.host.clone(),
            addr: self.addr,
            ok: self.ok,
            failed: self.failed,
            last_round_trip: self.last_round_trip,
            last_half_width_ns: self.last_half_width_ns,
            last_stratum: self.last_stratum,
            last_reference_id: copy_text(&self.last_reference_id),
            last_error: copy_text(&self.last_error),
            last_at: self.last_at,
            last_success_at: self.last_success_at,
        }
    }

    pub fn record_ok(&mut self, ex: &Exchange, now: HostTime)
        requires
            old(self).ok < u64::MAX,
            fits_i128(ex.sample.hi_ns - ex.sample.lo_ns),
        ensures
            final(self)@ == old(self)@.after_ok(*ex, now),
    {
        self.ok = self.ok + 1;
        self.last_round_trip = Some(ex.round_trip);
        self.last_half_width_ns = Some(ex.sample.half_width_ns());
        self.last_stratum = Some(ex.response.stratum);
        self.last_reference_id = Some(ex.response.reference_id_string());
        self.last_error = None;
        self.last_at = Some(now);
        self.last_success_at = Some(now);
    }

    pub fn record_failure(&mut self, error: String, now: HostTime)
        requires
            old(self).failed < u64::MAX,
        ensures
            final(self)@ == old(self)@.after_failure(error@, now),
    {
        self.failed = self.failed + 1;
        self.last_error = Some(error);
        self.last_at = Some(now);
    }

    /// Puts down the outcome of a query.
    pub fn record(&mut self, result: &Result<Exchange, QueryError>, now: HostTime)
        requires
            old(self).ok < u64::MAX,
            old(self).failed < u64::MAX,
            result matches Ok(ex) ==> fits_i128(ex.sample.hi_ns - ex.sample.lo_ns),
        ensures
            final(self)@ == old(self)@.after(*result, now),
    {
        match result {
            Ok(ex) => self.record_ok(ex, now),
            Err(QueryError::NoMatchingResponse) => self.record_failure("逾時".to_owned(), now),
            Err(e) => self.record_failure(e.message(), now),
        }
    }
}

/// What servers look like, one after the other.
pub open spec fn stats_views(v: Seq<ServerStats>) -> Seq<StatsView> {
    v.map_values(|s: ServerStats| s@)
}

/// A list of servers, copied.
pub fn copy_stats(v: &Vec<ServerStats>) -> (c: Vec<ServerStats>)
    ensures
        stats_views(c@) == stats_views(v@),
{
    let mut c: Vec<ServerStats> = Vec::new();
    let mut i: usize = 0;
    while i < v.len()
        invariant
            i <= v@.len(),
            c@.len() == i,
            forall|j: int| 0 <= j < i ==> (#[trigger] c@[j])@ == v@[j]@,
        decreases v@.len() - i,
    {
        c.push(v[i].copy());
        i = i + 1;
    }
    assert(stats_views(c@) =~= stats_views(v@));
    c
}

/// A list of servers of which nothing is known yet.
pub fn fresh_stats(hosts: &Vec<String>) -> (c: Vec<ServerStats>)
    ensures
        stats_views(c@) == texts(hosts@).map_values(|h: Seq<char>| StatsView::fresh(h)),
{
    let mut c: Vec<ServerStats> = Vec::new();
    let mut i: usize = 0;
    while i < hosts.len()
        invariant
            i <= hosts@.len(),
            c@.len() == i,
            forall|j: int| 0 <= j < i ==> (#[trigger] c@[j])@ == StatsView::fresh(hosts@[j]@),
        decreases hosts@.len() - i,
    {
        c.push(ServerStats::new(hosts[i].as_str()));
        i = i + 1;
    }
    assert(stats_views(c@) =~= texts(hosts@).map_values(|h: Seq<char>| StatsView::fresh(h)));
    c
}

/// The first of a list of servers with a host name, or a fresh one.
pub open spec fn known_or_fresh(old_stats: Seq<StatsView>, host: Seq<char>) -> StatsView
    decreases old_stats.len(),
{
    if old_stats.len() == 0 {
        StatsView::fresh(host)
    } else if old_stats[0].host == host {
        old_stats[0]
    } else {
        known_or_fresh(old_stats.drop_first(), host)
    }
}

/// Finds a host among the servers known before, else starts it afresh.
pub fn carry_over(old_stats: &Vec<ServerStats>, host: &String) -> (s: ServerStats)
    ensures
        s@ == known_or_fresh(stats_views(old_stats@), host@),
{
    let mut i: usize = 0;
    proof {
        assert(stats_views(old_stats@).skip(0) =~= stats_views(old_stats@));
    }
    while i < old_stats.len()
        invariant
            i <= old_stats@.len(),
            known_or_fresh(stats_views(old_stats@), host@) == known_or_fresh(
                stats_views(old_stats@).skip(i as int),
                host@,
            ),
        decreases old_stats@.len() - i,
    {
        assert(stats_views(old_stats@)[i as int] == old_stats@[i as int]@);
        if old_stats[i].host == *host {
            return old_stats[i].copy();
        }
        proof {
            assert(stats_views(old_stats@).skip(i as int).drop_first() =~= stats_views(
                old_stats@,
            ).skip(i + 1));
        }
        i = i + 1;
    }
    ServerStats::new(host.as_str())
}

/// The thread as a whole: its servers, the samples in the window, how many were set aside,
/// the number of the cycle, and the settings.
#[derive(Clone, Debug, PartialEq, Eq)]
pub struct SyncStatus {
    pub servers: Vec<ServerStats>,
    pub samples: usize,
    pub rejected: usize,
    pub round: u64,
    pub settings: Option<SyncSettings>,
}

impl Default for SyncStatus {
    fn default() -> (s: SyncStatus)
        ensures
            s.servers@.len() == 0,
            s.samples == 0,
            s.rejected == 0,
            s.round == 0,
            s.settings is None,
    {
        SyncStatus { servers: Vec::new(), samples: 0, rejected: 0, round: 0, settings: None }
    }
}

/// Every outcome is counted once, as what it was, and is the last thing known of the server: a
/// success leaves no error behind, a failure leaves what the last success told.
pub proof fn every_outcome_is_counted_once(
    v: StatsView,
    result: Result<Exchange, QueryError>,
    now: HostTime,
)
    ensures
        ({
            let after = v.after(result, now);
            &&& after.ok + after.failed == v.ok + v.failed + 1
            &&& after.host == v.host && after.addr == v.addr
            &&& after.last_at == Some(now)
            &&& result is Ok <==> after.ok == v.ok + 1
            &&& result is Ok <==> after.last_error is None
            &&& result is Err ==> after.last_success_at == v.last_success_at && after.last_round_trip
                == v.last_round_trip && after.last_half_width_ns == v.last_half_width_ns
                && after.last_stratum == v.last_stratum && after.last_reference_id
                == v.last_reference_id
            &&& result matches Ok(x) ==> after.last_success_at == Some(now) && after.last_round_trip
                == Some(x.round_trip) && after.last_stratum == Some(x.response.stratum)
        }),
{
}

/// The half-width that is kept of a success is half the width of its sample.
pub proof fn the_half_width_kept_is_half_the_width(v: StatsView, x: Exchange, now: HostTime)
    requires
        0 <= x.sample.hi_ns - x.sample.lo_ns <= u64::MAX,
    ensures
        v.after_ok(x, now).last_half_width_ns is Some,
        0 <= (x.sample.hi_ns - x.sample.lo_ns) - 2 * v.after_ok(x, now).last_half_width_ns->0 <= 1,
{
}

/// What is known of a server stays with its name: the first entry of that name is carried over
/// as it is, and a name that was not there starts with nothing.
pub proof fn what_is_known_stays_with_the_name(old_stats: Seq<StatsView>, host: Seq<char>)
    ensures
        known_or_fresh(old_stats, host).host == host,
        (forall|i: int| 0 <= i < old_stats.len() ==> (#[trigger] old_stats[i]).host != host)
            ==> known_or_fresh(old_stats, host).ok == 0 && known_or_fresh(old_stats, host).failed == 0
            && known_or_fresh(old_stats, host).last_at is None && known_or_fresh(
            old_stats,
            host,
        ).addr is None,
        forall|i: int|
            0 <= i < old_stats.len() && (#[trigger] old_stats[i]).host == host && (forall|j: int|
                0 <= j < i ==> (#[trigger] old_stats[j]).host != host) ==> known_or_fresh(
                old_stats,
                host,
            ) == old_stats[i],
    decreases old_stats.len(),
{
    if old_stats.len() > 0 && old_stats[0].host != host {
        let rest = old_stats.drop_first();
        what_is_known_stays_with_the_name(rest, host);
        if forall|i: int| 0 <= i < old_stats.len() ==> (#[trigger] old_stats[i]).host != host {
            assert forall|i: int| 0 <= i < rest.len() implies (#[trigger] rest[i]).host != host by {
                assert(rest[i] == old_stats[i + 1]);
            }
        }
        assert forall|i: int|
            0 <= i < old_stats.len() && (#[trigger] old_stats[i]).host == host && (forall|j: int|
                0 <= j < i ==> (#[trigger] old_stats[j]).host != host) implies known_or_fresh(
            old_stats,
            host,
        ) == old_stats[i] by {
            assert(i > 0);
            assert(rest[i - 1] == old_stats[i]);
            assert forall|j: int| 0 <= j < i - 1 implies (#[trigger] rest[j]).host != host by {
                assert(rest[j] == old_stats[j + 1]);
            }
        }
    }
}

/// The reference of a server is text where it is one of the first stratum, and an address
/// everywhere else: the text of the one may be anything, and the address has three dots between
/// its numbers.
pub proof fn only_the_first_stratum_names_its_reference(r: NtpResponse, other: NtpResponse)
    requires
        r.reference_id@ == other.reference_id@,
    ensures
        r.stratum != 1 ==> reference_text(r) == dotted(r.reference_id@),
        r.stratum != 1 && other.stratum != 1 ==> reference_text(r) == reference_text(other),
        r.stratum == 1 ==> reference_text(r) == without_trailing_zeros(
            lossy_text(r.reference_id@),
        ),
{
}

} // verus!
