//! What the sampling thread reports, and how it reads in the log.

use crate::decimal::{decimal, push_decimal};
use crate::duration::Duration;
use crate::model::{ClockModel, ModelStatus};
use crate::source::client::QueryError;
use crate::source::ntp::Exchange;
use crate::source::udp::AddressV4;
use crate::sync::settings::texts;
use crate::sync::stats::reference_text;
use vstd::prelude::*;
use vstd::string::*;

verus! {

/// Something the sampling thread did or met.
#[derive(Debug)]
pub enum SamplerEvent {
    CycleStarted { round: u64 },
    /// New settings are in place, and a cycle follows at once.
    Reconfigured { servers: Vec<String> },
    ResolveFailed { host: String, error: String },
    Exchange { host: String, addr: AddressV4, result: Result<Exchange, QueryError> },
    /// The machine slept: the samples are gone and the model is stale.
    SleepDetected { slept: Duration },
    /// The model is frozen, the network is left alone.
    Paused,
    /// Sampling goes on with a cycle at once.
    Resumed,
    Published { model: ClockModel, samples: usize, rejected: usize },
}

/// The figures of an event, written out to a fixed number of decimals.
pub struct EventFigures {
    /// The round trip of an exchange, in milliseconds.
    pub round_trip: String,
    /// The midpoint of an exchange or a model against the system clock, in milliseconds.
    pub midpoint: String,
    /// The half-width of an exchange or a model, in milliseconds.
    pub half_width: String,
    /// The drift rate of a model, in parts per million.
    pub drift: String,
    /// The bound on its error, in parts per million.
    pub drift_bound: String,
    /// The length of a sleep, in seconds.
    pub slept: String,
}

/// Texts with another between them.
pub open spec fn joined(v: Seq<Seq<char>>, between: Seq<char>) -> Seq<char>
    decreases v.len(),
{
    if v.len() == 0 {
        Seq::empty()
    } else if v.len() == 1 {
        v[0]
    } else {
        joined(v.drop_last(), between) + between + v.last()
    }
}

pub fn join(v: &Vec<String>, between: &str) -> (s: String)
    ensures
        s@ == joined(texts(v@), between@),
{
    let mut s: String = String::new();
    let mut i: usize = 0;
    while i < v.len()
        invariant
            i <= v@.len(),
            s@ == joined(texts(v@).subrange(0, i as int), between@),
        decreases v@.len() - i,
    {
        let ghost before = s@;
        if i > 0 {
            s.append(between);
        }
        s.append(v[i].as_str());
        proof {
            let longer = texts(v@).subrange(0, i + 1);
            assert(longer.drop_last() =~= texts(v@).subrange(0, i as int));
            assert(longer.last() == v@[i as int]@);
            if i == 0 {
                assert(s@ =~= longer[0]);
            }
        }
        i = i + 1;
    }
    proof {
        assert(texts(v@).subrange(0, i as int) =~= texts(v@));
    }
    s
}

/// The dotted form of an address.
pub open spec fn ip_text(ip: u32) -> Seq<char> {
    decimal((ip / 0x100_0000) as nat) + "."@ + decimal((ip / 0x1_0000 % 0x100) as nat) + "."@
        + decimal((ip / 0x100 % 0x100) as nat) + "."@ + decimal((ip % 0x100) as nat)
}

fn push_ip(s: &mut String, ip: u32)
    ensures
        final(s)@ == old(s)@ + ip_text(ip),
{
    let ghost before = s@;
    push_decimal(s, (ip / 0x100_0000) as u128);
    s.append(".");
    push_decimal(s, (ip / 0x1_0000 % 0x100) as u128);
    s.append(".");
    push_decimal(s, (ip / 0x100 % 0x100) as u128);
    s.append(".");
    push_decimal(s, (ip % 0x100) as u128);
    assert(s@ =~= before + ip_text(ip));
}

/// The name of a status, as the program writes it in its log.
pub open spec fn status_name(s: ModelStatus) -> Seq<char> {
    match s {
        ModelStatus::Uncalibrated => "Uncalibrated"@,
        ModelStatus::Converging => "Converging"@,
        ModelStatus::Tracking => "Tracking"@,
        ModelStatus::Stale => "Stale"@,
        ModelStatus::Frozen => "Frozen"@,
    }
}

fn name_of(s: ModelStatus) -> (n: &'static str)
    ensures
        n@ == status_name(s),
{
    match s {
        ModelStatus::Uncalibrated => "Uncalibrated",
        ModelStatus::Converging => "Converging",
        ModelStatus::Tracking => "Tracking",
        ModelStatus::Stale => "Stale",
        ModelStatus::Frozen => "Frozen",
    }
}

impl SamplerEvent {
    /// The event in words.
    pub open spec fn text(self, f: EventFigures) -> Seq<char> {
        match self {
            SamplerEvent::CycleStarted { round } => "第 "@ + decimal(round as nat) + " 輪取樣"@,
            SamplerEvent::Reconfigured { servers } => "換上新設定："@ + joined(
                texts(servers@),
                "、"@,
            ) + "，立刻跑一輪"@,
            SamplerEvent::ResolveFailed { host, error } => host@ + "：解析失敗："@ + error@,
            SamplerEvent::Exchange { host, addr, result } => match result {
                Ok(ex) => host@ + "（"@ + ip_text(addr.ip) + "）：往返 "@ + f.round_trip@
                    + " ms，中點 "@ + f.midpoint@ + " ms ± "@ + f.half_width@ + " ms，stratum "@
                    + decimal(ex.response.stratum as nat) + " / "@ + reference_text(ex.response),
                Err(QueryError::NoMatchingResponse) => host@ + "：逾時"@,
                Err(e) => host@ + "：失敗："@ + e.text(),
            },
            SamplerEvent::Paused => "暫停取樣，模型凍結"@,
            SamplerEvent::Resumed => "恢復取樣，立刻跑一輪"@,
            SamplerEvent::SleepDetected { slept } => "偵測到睡眠 "@ + f.slept@
                + " 秒，樣本清空、重新校時"@,
            SamplerEvent::Published { model, samples, rejected } => if !model.usable() {
                "模型 "@ + status_name(model.status) + "：沒有可用樣本"@
            } else {
                "模型 "@ + status_name(model.status) + "："@ + f.midpoint@ + " ms ± "@
                    + f.half_width@ + " ms，漂移 "@ + f.drift@ + " ± "@ + f.drift_bound@
                    + " ppm，"@ + decimal(samples as nat) + " 筆，丟 "@ + decimal(rejected as nat)
                    + " 筆"@
            },
        }
    }

    /// The line for the log. The figures are those of this event; the ones that do not
    /// belong to it are not read.
    pub fn describe(&self, f: &EventFigures) -> (s: String)
        ensures
            s@ == self.text(*f),
    {
        let mut s: String = String::new();
        match self {
            SamplerEvent::CycleStarted { round } => {
                s.append("第 ");
                push_decimal(&mut s, *round as u128);
                s.append(" 輪取樣");
            },
            SamplerEvent::Reconfigured { servers } => {
                s.append("換上新設定：");
                s.append(join(servers, "、").as_str());
                s.append("，立刻跑一輪");
            },
            SamplerEvent::ResolveFailed { host, error } => {
                s.append(host.as_str());
                s.append("：解析失敗：");
                s.append(error.as_str());
            },
            SamplerEvent::Exchange { host, addr, result } => {
                s.append(host.as_str());
                match result {
                    Ok(ex) => {
                        s.append("（");
                        push_ip(&mut s, addr.ip);
                        s.append("）：往返 ");
                        s.append(f.round_trip.as_str());
                        s.append(" ms，中點 ");
                        s.append(f.midpoint.as_str());
                        s.append(" ms ± ");
                        s.append(f.half_width.as_str());
                        s.append(" ms，stratum ");
                        push_decimal(&mut s, ex.response.stratum as u128);
                        s.append(" / ");
                        s.append(ex.response.reference_id_string().as_str());
                    },
                    Err(QueryError::NoMatchingResponse) => s.append("：逾時"),
                    Err(e) => {
                        s.append("：失敗：");
                        s.append(e.message().as_str());
                    },
                }
            },
            SamplerEvent::Paused => s.append("暫停取樣，模型凍結"),
            SamplerEvent::Resumed => s.append("恢復取樣，立刻跑一輪"),
            SamplerEvent::SleepDetected { slept } => {
                s.append("偵測到睡眠 ");
                s.append(f.slept.as_str());
                s.append(" 秒，樣本清空、重新校時");
            },
            SamplerEvent::Published { model, samples, rejected } => {
                s.append("模型 ");
                s.append(name_of(model.status));
                if !model.is_usable() {
                    s.append("：沒有可用樣本");
                } else {
                    s.append("：");
                    s.append(f.midpoint.as_str());
                    s.append(" ms ± ");
                    s.append(f.half_width.as_str());
                    s.append(" ms，漂移 ");
                    s.append(f.drift.as_str());
                    s.append(" ± ");
                    s.append(f.drift_bound.as_str());
                    s.append(" ppm，");
                    push_decimal(&mut s, *samples as u128);
                    s.append(" 筆，丟 ");
                    push_decimal(&mut s, *rejected as u128);
                    s.append(" 筆");
                }
            },
        }
        assert(s@ =~= self.text(*f));
        s
    }
}

/// Texts are joined with the other between them and nowhere else.
pub proof fn joining_puts_the_text_between(v: Seq<Seq<char>>, s: Seq<char>, between: Seq<char>)
    ensures
        joined(Seq::<Seq<char>>::empty(), between) == Seq::<char>::empty(),
        joined(seq![s], between) == s,
        v.len() > 0 ==> joined(v.push(s), between) == joined(v, between) + between + s,
{
    assert(v.push(s).drop_last() =~= v);
}

/// The four numbers of an address are its four bytes, the first the most significant.
pub proof fn an_address_reads_byte_by_byte(a: u8, b: u8, c: u8, d: u8)
    ensures
        ip_text((((a * 256 + b) * 256 + c) * 256 + d) as u32) == decimal(a as nat) + "."@ + decimal(
            b as nat,
        ) + "."@ + decimal(c as nat) + "."@ + decimal(d as nat),
{
    let ip = (((a * 256 + b) * 256 + c) * 256 + d) as u32;
    assert(ip / 0x100_0000 == a);
    assert(ip / 0x1_0000 % 0x100 == b);
    assert(ip / 0x100 % 0x100 == c);
    assert(ip % 0x100 == d);
}

} // verus!
