//! The settings of the sampling thread.

use crate::decimal::{decimal, push_decimal};
use crate::duration::Duration;
use crate::estimate::interval::EstimatorConfig;
use crate::trim::{contains_whitespace, has_space, trim, trimmed};
use vstd::prelude::*;
use vstd::string::*;

verus! {

pub const MAX_SERVERS: usize = 8;

pub const MAX_BURST: usize = 8;

pub const MIN_SPACING_MS: u64 = 200;

pub const MIN_CYCLE_S: u64 = 60;

#[derive(Clone, Debug)]
pub struct SamplerConfig {
    /// The servers' host names, resolved anew in every cycle.
    pub servers: Vec<String>,
    pub port: u16,
    /// Queries per server and cycle.
    pub burst: usize,
    /// Between two queries to one server.
    pub spacing: Duration,
    /// From the end of one cycle to the next.
    pub cycle: Duration,
    pub socket_timeout: Duration,
    /// Without any success for longer, a model is stale: its numbers stay, its width grows.
    pub stale_after: Duration,
    /// The threshold for noticing sleep.
    pub sleep_threshold: Duration,
    pub estimator: EstimatorConfig,
}

impl Default for SamplerConfig {
    /// A cycle every three minutes with four queries to each of three servers: the half-hour
    /// window holds ten cycles, 120 samples, within the estimator's most.
    fn default() -> (c: SamplerConfig)
        ensures
            c.servers@.len() == 3,
            c.servers@[0]@ == "time.stdtime.gov.tw"@,
            c.servers@[1]@ == "time.google.com"@,
            c.servers@[2]@ == "time.cloudflare.com"@,
            c.port == 123,
            c.burst == 4,
            c.spacing@ == 1_000_000_000,
            c.cycle@ == 180_000_000_000,
            c.socket_timeout@ == 2_000_000_000,
            c.stale_after@ == 600_000_000_000,
            c.sleep_threshold@ == 500_000_000,
            c.estimator.window@ == 1_800_000_000_000,
            c.estimator.max_samples == 160,
            c.estimator.max_drift_ppm.bits == 0x407f_4000_0000_0000,
            c.estimator.min_samples_for_tracking == 4,
            c.estimator.min_span_for_tracking@ == 300_000_000_000,
            c.estimator.numeric_slack_ns == 1_000,
    {
        let mut servers: Vec<String> = Vec::new();
        servers.push("time.stdtime.gov.tw".to_owned());
        servers.push("time.google.com".to_owned());
        servers.push("time.cloudflare.com".to_owned());
        SamplerConfig {
            servers,
            port: 123,
            burst: 4,
            spacing: Duration::from_secs(1),
            cycle: Duration::from_secs(180),
            socket_timeout: Duration::from_secs(2),
            stale_after: Duration::from_secs(600),
            sleep_threshold: Duration::from_millis(500),
            estimator: EstimatorConfig::default(),
        }
    }
}

/// The settings that can change while the thread runs: the servers and the rhythm.
#[derive(Clone, Debug, PartialEq, Eq)]
pub struct SyncSettings {
    pub servers: Vec<String>,
    pub burst: usize,
    pub spacing: Duration,
    pub cycle: Duration,
}

/// The texts of a list.
pub open spec fn texts(v: Seq<String>) -> Seq<Seq<char>> {
    v.map_values(|s: String| s@)
}

/// A list of texts, copied.
pub fn copy_texts(v: &Vec<String>) -> (c: Vec<String>)
    ensures
        texts(c@) == texts(v@),
{
    let mut c: Vec<String> = Vec::new();
    let mut i: usize = 0;
    while i < v.len()
        invariant
            i <= v@.len(),
            texts(c@) == texts(v@.subrange(0, i as int)),
        decreases v@.len() - i,
    {
        c.push(v[i].clone());
        proof {
            assert(texts(c@) =~= texts(v@.subrange(0, i + 1))) by {
                assert(v@.subrange(0, i + 1) =~= v@.subrange(0, i as int).push(v@[i as int]));
                assert(texts(v@.subrange(0, i + 1)) =~= texts(v@.subrange(0, i as int)).push(
                    v@[i as int]@,
                ));
            }
        }
        i = i + 1;
    }
    proof {
        assert(v@.subrange(0, i as int) =~= v@);
    }
    c
}

/// What a string looks like in quotes, as the standard library's debug format writes it.
pub uninterp spec fn quoted_text(s: Seq<char>) -> Seq<char>;

/// The debug format of a string, from [`format!`] with `{:?}`. It depends on the string
/// alone; the escapes it uses are not spelled out.
#[verifier::external_body]
pub(crate) fn quoted(s: &str) -> (q: String)
    ensures
        q@ == quoted_text(s@),
{
    format!("{s:?}")
}

/// A host name is not empty and has no white space in it.
pub open spec fn bad_host(s: Seq<char>) -> bool {
    s.len() == 0 || has_space(s)
}

/// Every text of a list without the white space around it.
pub open spec fn all_trimmed(v: Seq<String>) -> Seq<Seq<char>> {
    v.map_values(|s: String| trimmed(s@))
}

/// The first host name that is not one.
pub open spec fn first_bad(hosts: Seq<Seq<char>>, i: int) -> bool {
    &&& 0 <= i < hosts.len()
    &&& bad_host(hosts[i])
    &&& forall|j: int| 0 <= j < i ==> !bad_host(#[trigger] hosts[j])
}

impl SyncSettings {
    /// What making settings gives: the words for the first fault in the order of the checks,
    /// or the settings with every host name trimmed.
    pub open spec fn new_gives(
        servers: Seq<String>,
        burst: usize,
        spacing_ns: int,
        cycle_ns: int,
        r: Result<SyncSettings, String>,
    ) -> bool {
        let hosts = all_trimmed(servers);
        if hosts.len() == 0 || hosts.len() > MAX_SERVERS {
            &&& r matches Err(e)
            &&& e@ == "伺服器要 1 到 "@ + decimal(MAX_SERVERS as nat) + " 台，現在 "@ + decimal(
                hosts.len(),
            ) + " 台"@
        } else if exists|i: int| first_bad(hosts, i) {
            &&& r matches Err(e)
            &&& exists|i: int|
                #[trigger] first_bad(hosts, i) && e@ == "伺服器主機名 "@ + quoted_text(hosts[i])
                    + " 不合法"@
        } else if burst == 0 || burst > MAX_BURST {
            &&& r matches Err(e)
            &&& e@ == "每輪筆數要 1 到 "@ + decimal(MAX_BURST as nat) + "，現在 "@ + decimal(
                burst as nat,
            )
        } else if spacing_ns < MIN_SPACING_MS * 1_000_000 {
            &&& r matches Err(e)
            &&& e@ == "同一台兩筆的間隔至少 "@ + decimal(MIN_SPACING_MS as nat) + " ms，現在 "@
                + decimal((spacing_ns / 1_000_000) as nat) + " ms"@
        } else if cycle_ns < MIN_CYCLE_S * 1_000_000_000 {
            &&& r matches Err(e)
            &&& e@ == "兩輪的間隔至少 "@ + decimal(MIN_CYCLE_S as nat) + " 秒，現在 "@ + decimal(
                (cycle_ns / 1_000_000_000) as nat,
            ) + " 秒"@
        } else {
            &&& r matches Ok(s)
            &&& texts(s.servers@) == hosts
            &&& s.burst == burst
            &&& s.spacing@ == spacing_ns
            &&& s.cycle@ == cycle_ns
        }
    }

    /// Settings that hold: one to eight servers, one to eight queries, 200 milliseconds or
    /// more between them, 60 seconds or more between cycles, and host names that are some.
    pub fn new(servers: Vec<String>, burst: usize, spacing: Duration, cycle: Duration) -> (r:
        Result<SyncSettings, String>)
        ensures
            SyncSettings::new_gives(servers@, burst, spacing@, cycle@, r),
    {
        let ghost hosts = all_trimmed(servers@);
        let mut kept: Vec<String> = Vec::new();
        let mut i: usize = 0;
        while i < servers.len()
            invariant
                i <= servers@.len(),
                hosts == all_trimmed(servers@),
                kept@.len() == i,
                forall|j: int| 0 <= j < i ==> (#[trigger] kept@[j])@ == hosts[j],
            decreases servers@.len() - i,
        {
            kept.push(trim(servers[i].as_str()));
            i = i + 1;
        }
        assert(texts(kept@) =~= hosts);
        if kept.len() == 0 || kept.len() > MAX_SERVERS {
            let mut e: String = "伺服器要 1 到 ".to_owned();
            push_decimal(&mut e, MAX_SERVERS as u128);
            e.append(" 台，現在 ");
            push_decimal(&mut e, kept.len() as u128);
            e.append(" 台");
            return Err(e);
        }
        let mut k: usize = 0;
        while k < kept.len()
            invariant
                k <= kept@.len(),
                texts(kept@) == hosts,
                hosts == all_trimmed(servers@),
                0 < hosts.len() <= MAX_SERVERS,
                forall|j: int| 0 <= j < k ==> !bad_host(#[trigger] hosts[j]),
            decreases kept@.len() - k,
        {
            assert(kept@[k as int]@ == hosts[k as int]);
            if kept[k].as_str().is_empty() || contains_whitespace(kept[k].as_str()) {
                let mut e: String = "伺服器主機名 ".to_owned();
                e.append(quoted(kept[k].as_str()).as_str());
                e.append(" 不合法");
                assert(first_bad(hosts, k as int));
                return Err(e);
            }
            k = k + 1;
        }
        assert(!exists|i: int| first_bad(hosts, i));
        if burst == 0 || burst > MAX_BURST {
            let mut e: String = "每輪筆數要 1 到 ".to_owned();
            push_decimal(&mut e, MAX_BURST as u128);
            e.append("，現在 ");
            push_decimal(&mut e, burst as u128);
            return Err(e);
        }
        if spacing.shorter_than(&Duration::from_millis(MIN_SPACING_MS)) {
            let mut e: String = "同一台兩筆的間隔至少 ".to_owned();
            push_decimal(&mut e, MIN_SPACING_MS as u128);
            e.append(" ms，現在 ");
            push_decimal(&mut e, spacing.as_millis());
            e.append(" ms");
            return Err(e);
        }
        if cycle.shorter_than(&Duration::from_secs(MIN_CYCLE_S)) {
            let mut e: String = "兩輪的間隔至少 ".to_owned();
            push_decimal(&mut e, MIN_CYCLE_S as u128);
            e.append(" 秒，現在 ");
            push_decimal(&mut e, cycle.as_secs() as u128);
            e.append(" 秒");
            return Err(e);
        }
        Ok(SyncSettings { servers: kept, burst, spacing, cycle })
    }

    /// The part of a configuration that can change.
    pub fn from_config(config: &SamplerConfig) -> (s: SyncSettings)
        ensures
            texts(s.servers@) == texts(config.servers@),
            s.burst == config.burst,
            s.spacing == config.spacing,
            s.cycle == config.cycle,
    {
        SyncSettings {
            servers: copy_texts(&config.servers),
            burst: config.burst,
            spacing: config.spacing,
            cycle: config.cycle,
        }
    }
}

impl SamplerConfig {
    /// Takes over settings and leaves the rest.
    pub fn apply(&mut self, settings: &SyncSettings)
        ensures
            texts(final(self).servers@) == texts(settings.servers@),
            final(self).burst == settings.burst,
            final(self).spacing == settings.spacing,
            final(self).cycle == settings.cycle,
            final(self).port == old(self).port,
            final(self).socket_timeout == old(self).socket_timeout,
            final(self).stale_after == old(self).stale_after,
            final(self).sleep_threshold == old(self).sleep_threshold,
            final(self).estimator == old(self).estimator,
    {
        self.servers = copy_texts(&settings.servers);
        self.burst = settings.burst;
        self.spacing = settings.spacing;
        self.cycle = settings.cycle;
    }
}

/// Settings made from settings that hold are those settings: nothing is left to trim or to
/// refuse.
pub proof fn good_settings_stay_good(
    servers: Seq<String>,
    burst: usize,
    spacing_ns: int,
    cycle_ns: int,
    r: Result<SyncSettings, String>,
    again: Result<SyncSettings, String>,
)
    requires
        SyncSettings::new_gives(servers, burst, spacing_ns, cycle_ns, r),
        r is Ok,
        SyncSettings::new_gives(
            r->Ok_0.servers@,
            r->Ok_0.burst,
            r->Ok_0.spacing@,
            r->Ok_0.cycle@,
            again,
        ),
    ensures
        again is Ok,
        texts(again->Ok_0.servers@) == texts(r->Ok_0.servers@),
        again->Ok_0.burst == r->Ok_0.burst,
        again->Ok_0.spacing@ == r->Ok_0.spacing@,
        again->Ok_0.cycle@ == r->Ok_0.cycle@,
{
    let kept = r->Ok_0.servers@;
    let hosts = all_trimmed(servers);
    assert(all_trimmed(kept) =~= hosts) by {
        assert forall|i: int| 0 <= i < kept.len() implies #[trigger] all_trimmed(kept)[i]
            == hosts[i] by {
            assert(texts(kept)[i] == hosts[i]);
            crate::trim::trimming_is_final(servers[i]@);
        }
    }
}

/// Settings are good just where they are within bounds: one to eight servers, each of them a name
/// without white space inside once the white space around it is gone, one to eight queries, at
/// least 200 milliseconds between them, and at least 60 seconds between cycles.
pub proof fn settings_are_good_within_their_bounds(
    servers: Seq<String>,
    burst: usize,
    spacing_ns: int,
    cycle_ns: int,
    r: Result<SyncSettings, String>,
)
    requires
        SyncSettings::new_gives(servers, burst, spacing_ns, cycle_ns, r),
    ensures
        r is Ok <==> {
            &&& 1 <= servers.len() <= 8
            &&& forall|i: int|
                0 <= i < servers.len() ==> trimmed((#[trigger] servers[i])@).len() > 0
                    && !has_space(trimmed(servers[i]@))
            &&& 1 <= burst <= 8
            &&& spacing_ns >= 200_000_000
            &&& cycle_ns >= 60_000_000_000
        },
        r matches Ok(s) ==> s.servers@.len() == servers.len() && forall|i: int|
            0 <= i < servers.len() ==> (#[trigger] s.servers@[i])@ == trimmed(servers[i]@),
        r matches Ok(s) ==> s.burst == burst && s.spacing@ == spacing_ns && s.cycle@ == cycle_ns,
{
    let hosts = all_trimmed(servers);
    assert(hosts.len() == servers.len());
    assert forall|i: int| 0 <= i < servers.len() implies #[trigger] hosts[i] == trimmed(
        servers[i]@,
    ) by {}
    if let Ok(s) = r {
        assert(texts(s.servers@).len() == hosts.len());
        assert forall|i: int| 0 <= i < servers.len() implies (#[trigger] s.servers@[i])@ == trimmed(
            servers[i]@,
        ) by {
            assert(texts(s.servers@)[i] == hosts[i]);
        }
        assert forall|i: int| 0 <= i < servers.len() implies trimmed((#[trigger] servers[i])@).len()
            > 0 && !has_space(trimmed(servers[i]@)) by {
            if bad_host(hosts[i]) {
                lemma_a_first_bad(hosts, i);
            }
        }
    }
    if exists|i: int| first_bad(hosts, i) {
        let i = choose|i: int| first_bad(hosts, i);
        assert(hosts[i] == trimmed(servers[i]@));
    }
}

/// Where one name is bad there is a first.
proof fn lemma_a_first_bad(hosts: Seq<Seq<char>>, i: int)
    requires
        0 <= i < hosts.len(),
        bad_host(hosts[i]),
    ensures
        exists|k: int| first_bad(hosts, k),
    decreases i,
{
    if exists|j: int| 0 <= j < i && bad_host(#[trigger] hosts[j]) {
        let j = choose|j: int| 0 <= j < i && bad_host(#[trigger] hosts[j]);
        lemma_a_first_bad(hosts, j);
    } else {
        assert(first_bad(hosts, i));
    }
}

/// Where a host is bad there is a first that is, and only one.
pub proof fn the_bad_host_named_is_the_first(hosts: Seq<Seq<char>>, i: int, j: int)
    requires
        0 <= i < hosts.len(),
        bad_host(hosts[i]),
    ensures
        exists|k: int| 0 <= k <= i && #[trigger] first_bad(hosts, k),
        first_bad(hosts, j) ==> 0 <= j <= i,
    decreases i,
{
    if exists|k: int| 0 <= k < i && bad_host(#[trigger] hosts[k]) {
        let k = choose|k: int| 0 <= k < i && bad_host(#[trigger] hosts[k]);
        the_bad_host_named_is_the_first(hosts, k, j);
    } else {
        assert(first_bad(hosts, i));
    }
}

} // verus!
