//! NTP version 4 client packets: encoding a request, decoding a response, and turning the
//! four timestamps of an exchange into a [`Sample`].
//!
//! A request carries a random nonce in its transmit field in place of the local time.
//! The server copies it into the origin field, which ties a response to its request and
//! gives nothing away about the local clock.

use crate::arith::fits_i128;
use crate::decimal::{decimal, push_decimal};
use crate::duration::Duration;
use crate::model::SourceKind;
use crate::source::Sample;
use crate::time::{HostTime, Timebase};
use vstd::prelude::*;
use vstd::string::*;
use vstd::utf8::{decode_utf8, valid_utf8};

verus! {

pub const PACKET_LEN: usize = 48;

/// The seconds from 1900-01-01 to 1970-01-01.
pub const NTP_UNIX_OFFSET_SECS: u64 = 2_208_988_800;

/// The largest stratum of a usable server.
pub const MAX_STRATUM: u8 = 15;

#[derive(Debug, Clone, PartialEq, Eq)]
pub enum NtpError {
    /// The response is shorter than a packet.
    TooShort(usize),
    /// The version is neither 3 nor 4.
    BadVersion(u8),
    /// The mode is not 4, server.
    BadMode(u8),
    /// The server says that it is not synchronised.
    Unsynchronized,
    /// Stratum 0: the server refuses, with a four-character code.
    KissOfDeath(String),
    /// The stratum is above the largest one.
    BadStratum(u8),
    /// The origin field is not the nonce: not the response to this request.
    OriginMismatch,
    /// The receive or the transmit timestamp is zero.
    ZeroTimestamp,
    /// The server sent before it received, or the host received before it sent.
    NonMonotonic,
    /// The server took longer than the round trip, which cannot be.
    InvertedInterval,
}

impl NtpError {
    pub open spec fn text(self) -> Seq<char> {
        match self {
            NtpError::TooShort(n) => "回應只有 "@ + decimal(n as nat) + " 位元組"@,
            NtpError::BadVersion(v) => "NTP 版本 "@ + decimal(v as nat) + " 不支援"@,
            NtpError::BadMode(m) => "mode "@ + decimal(m as nat) + " 不是伺服器回應"@,
            NtpError::Unsynchronized => "伺服器未同步（LI=3）"@,
            NtpError::KissOfDeath(code) => "伺服器拒絕："@ + code@,
            NtpError::BadStratum(s) => "stratum "@ + decimal(s as nat) + " 超出範圍"@,
            NtpError::OriginMismatch => "origin 與 nonce 不符"@,
            NtpError::ZeroTimestamp => "時間戳記為零"@,
            NtpError::NonMonotonic => "時間戳記順序矛盾"@,
            NtpError::InvertedInterval => "區間寬度為負"@,
        }
    }

    /// The error in words.
    pub fn message(&self) -> (s: String)
        ensures
            s@ == self.text(),
    {
        match self {
            NtpError::TooShort(n) => numbered("回應只有 ", *n as u128, " 位元組"),
            NtpError::BadVersion(v) => numbered("NTP 版本 ", *v as u128, " 不支援"),
            NtpError::BadMode(m) => numbered("mode ", *m as u128, " 不是伺服器回應"),
            NtpError::Unsynchronized => "伺服器未同步（LI=3）".to_owned(),
            NtpError::KissOfDeath(code) => {
                let mut s: String = "伺服器拒絕：".to_owned();
                s.append(code.as_str());
                s
            },
            NtpError::BadStratum(n) => numbered("stratum ", *n as u128, " 超出範圍"),
            NtpError::OriginMismatch => "origin 與 nonce 不符".to_owned(),
            NtpError::ZeroTimestamp => "時間戳記為零".to_owned(),
            NtpError::NonMonotonic => "時間戳記順序矛盾".to_owned(),
            NtpError::InvertedInterval => "區間寬度為負".to_owned(),
        }
    }
}

/// A number between two pieces of text.
pub fn numbered(before: &str, n: u128, after: &str) -> (s: String)
    ensures
        s@ == before@ + decimal(n as nat) + after@,
{
    let mut s: String = before.to_owned();
    push_decimal(&mut s, n);
    s.append(after);
    s
}

/// The number that bytes spell, the most significant first.
pub open spec fn be_value(bytes: Seq<u8>) -> nat
    decreases bytes.len(),
{
    if bytes.len() == 0 {
        0
    } else {
        be_value(bytes.drop_last()) * 256 + bytes.last() as nat
    }
}

/// Byte strings of one length that spell the same number are the same.
pub proof fn be_value_is_injective(a: Seq<u8>, b: Seq<u8>)
    requires
        a.len() == b.len(),
        be_value(a) == be_value(b),
    ensures
        a == b,
    decreases a.len(),
{
    if a.len() > 0 {
        be_value_is_injective(a.drop_last(), b.drop_last());
        assert(a =~= a.drop_last().push(a.last()));
        assert(b =~= b.drop_last().push(b.last()));
    } else {
        assert(a =~= b);
    }
}

proof fn lemma_be_value_4(s: Seq<u8>)
    requires
        s.len() == 4,
    ensures
        be_value(s) == ((s[0] * 256 + s[1]) * 256 + s[2]) * 256 + s[3],
{
    reveal_with_fuel(be_value, 5);
}

proof fn lemma_be_value_8(s: Seq<u8>)
    requires
        s.len() == 8,
    ensures
        be_value(s) == ((((((s[0] * 256 + s[1]) * 256 + s[2]) * 256 + s[3]) * 256 + s[4]) * 256
            + s[5]) * 256 + s[6]) * 256 + s[7],
{
    reveal_with_fuel(be_value, 9);
}

fn be_u32(b0: u8, b1: u8, b2: u8, b3: u8) -> (n: u32)
    ensures
        n == be_value(seq![b0, b1, b2, b3]),
{
    proof {
        lemma_be_value_4(seq![b0, b1, b2, b3]);
    }
    ((b0 as u32 * 256 + b1 as u32) * 256 + b2 as u32) * 256 + b3 as u32
}

/// An NTP timestamp: seconds since 1900 in the high half, a binary fraction of a second in
/// the low half.
#[derive(Clone, Copy, Debug, PartialEq, Eq, Structural)]
pub struct NtpTimestamp(pub u64);

impl NtpTimestamp {
    pub fn from_be_bytes(b: [u8; 8]) -> (t: NtpTimestamp)
        ensures
            t.0 == be_value(b@),
    {
        proof {
            lemma_be_value_8(b@);
        }
        let high: u64 = ((b[0] as u64 * 256 + b[1] as u64) * 256 + b[2] as u64) * 256 + b[3] as u64;
        NtpTimestamp(
            (((high * 256 + b[4] as u64) * 256 + b[5] as u64) * 256 + b[6] as u64) * 256
                + b[7] as u64,
        )
    }

    pub fn to_be_bytes(self) -> (b: [u8; 8])
        ensures
            be_value(b@) == self.0,
    {
        let n: u64 = self.0;
        let n1: u64 = n / 256;
        let n2: u64 = n1 / 256;
        let n3: u64 = n2 / 256;
        let n4: u64 = n3 / 256;
        let n5: u64 = n4 / 256;
        let n6: u64 = n5 / 256;
        let n7: u64 = n6 / 256;
        let b: [u8; 8] = [
            n7 as u8,
            (n6 % 256) as u8,
            (n5 % 256) as u8,
            (n4 % 256) as u8,
            (n3 % 256) as u8,
            (n2 % 256) as u8,
            (n1 % 256) as u8,
            (n % 256) as u8,
        ];
        proof {
            lemma_be_value_8(b@);
        }
        b
    }

    pub fn is_zero(self) -> (b: bool)
        ensures
            b == (self.0 == 0),
    {
        self.0 == 0
    }

    /// The Unix time of a timestamp, in nanoseconds.
    ///
    /// The seconds run over in 2036. No server sends a time before 1970, so seconds that
    /// would be one belong to the next round, which is right until 2106.
    pub open spec fn unix_ns(self) -> int {
        let secs = self.0 as int / 0x1_0000_0000;
        let frac = self.0 as int % 0x1_0000_0000;
        let since_1900 = if secs < NTP_UNIX_OFFSET_SECS {
            secs + 0x1_0000_0000
        } else {
            secs
        };
        (since_1900 - NTP_UNIX_OFFSET_SECS) * 1_000_000_000 + frac * 1_000_000_000 / 0x1_0000_0000
    }

    pub fn to_unix_ns(self) -> (ns: i128)
        ensures
            ns == self.unix_ns(),
            0 <= ns < 0x2_0000_0000 * 1_000_000_000,
    {
        let secs: u64 = self.0 / 0x1_0000_0000;
        let frac: u64 = self.0 % 0x1_0000_0000;
        let since_1900: u64 = if secs < NTP_UNIX_OFFSET_SECS {
            secs + 0x1_0000_0000
        } else {
            secs
        };
        let unix_secs: i128 = (since_1900 - NTP_UNIX_OFFSET_SECS) as i128;
        let frac_ns: i128 = (frac as u128 * 1_000_000_000 / 0x1_0000_0000) as i128;
        unix_secs * 1_000_000_000 + frac_ns
    }

    /// The timestamp of a Unix time: the seconds since 1900 without their overflow, and
    /// the fraction cut to thirty-two bits.
    pub open spec fn of_unix_ns(unix_ns: int) -> int {
        ((unix_ns / 1_000_000_000 + NTP_UNIX_OFFSET_SECS) % 0x1_0000_0000) * 0x1_0000_0000 + (
        unix_ns % 1_000_000_000) * 0x1_0000_0000 / 1_000_000_000
    }

    /// The timestamp of a Unix time, which may not be before 1970.
    pub fn from_unix_ns(unix_ns: i128) -> (t: NtpTimestamp)
        requires
            unix_ns >= 0,
        ensures
            t.0 == NtpTimestamp::of_unix_ns(unix_ns as int),
    {
        let secs: u128 = unix_ns as u128 / 1_000_000_000 + NTP_UNIX_OFFSET_SECS as u128;
        let ns: u128 = unix_ns as u128 % 1_000_000_000;
        let frac: u64 = (ns * 0x1_0000_0000 / 1_000_000_000) as u64;
        let low_secs: u64 = (secs % 0x1_0000_0000) as u64;
        NtpTimestamp(low_secs * 0x1_0000_0000 + frac)
    }
}

/// Until 2106, a Unix time put into a timestamp and read back loses at most a nanosecond.
pub proof fn timestamp_keeps_unix_time(unix_ns: int)
    requires
        0 <= unix_ns < 0x1_0000_0000 * 1_000_000_000,
    ensures
        0 <= NtpTimestamp::of_unix_ns(unix_ns) <= u64::MAX,
        0 <= unix_ns - NtpTimestamp(NtpTimestamp::of_unix_ns(unix_ns) as u64).unix_ns() <= 1,
{
    let secs = unix_ns / 1_000_000_000 + NTP_UNIX_OFFSET_SECS;
    let low = secs % 0x1_0000_0000;
    let frac = (unix_ns % 1_000_000_000) * 0x1_0000_0000 / 1_000_000_000;
    assert(0 <= frac < 0x1_0000_0000);
    let t = NtpTimestamp(NtpTimestamp::of_unix_ns(unix_ns) as u64);
    assert(t.0 as int / 0x1_0000_0000 == low);
    assert(t.0 as int % 0x1_0000_0000 == frac);
}

/// Bytes read as a timestamp and written again are the same bytes, and the other way
/// round.
pub proof fn timestamp_bytes_roundtrip(b: Seq<u8>, c: Seq<u8>)
    requires
        b.len() == 8,
        c.len() == 8,
        be_value(c) == be_value(b),
    ensures
        c == b,
{
    be_value_is_injective(b, c);
}

/// A short NTP number, sixteen bits of seconds and sixteen of fraction, in nanoseconds.
pub open spec fn short_ns(v: int) -> int {
    v * 1_000_000_000 / 65_536
}

fn short_to_ns(v: u32) -> (ns: u64)
    ensures
        ns == short_ns(v as int),
{
    (v as u128 * 1_000_000_000 / 65_536) as u64
}

/// A client request.
#[derive(Clone, Copy, Debug, PartialEq, Eq, Structural)]
pub struct NtpRequest {
    /// Goes out in the transmit field and comes back in the origin field.
    pub nonce: u64,
}

impl NtpRequest {
    /// The packet: no leap warning, version 4, mode 3 (client), and the nonce at the end.
    pub fn encode(&self) -> (b: [u8; 48])
        ensures
            b@[0] == 0b00_100_011,
            forall|i: int| 1 <= i < 40 ==> b@[i] == 0,
            be_value(b@.subrange(40, 48)) == self.nonce,
    {
        let mut b: [u8; 48] = [0u8;48];
        b[0] = 0b00_100_011;
        let n: [u8; 8] = NtpTimestamp(self.nonce).to_be_bytes();
        b[40] = n[0];
        b[41] = n[1];
        b[42] = n[2];
        b[43] = n[3];
        b[44] = n[4];
        b[45] = n[5];
        b[46] = n[6];
        b[47] = n[7];
        assert(b@.subrange(40, 48) =~= n@);
        b
    }
}

/// A decoded server response, its timestamps as Unix nanoseconds.
#[derive(Clone, Debug, PartialEq, Eq)]
pub struct NtpResponse {
    pub leap_indicator: u8,
    pub version: u8,
    pub stratum: u8,
    /// The precision of the server's clock, a power of two.
    pub precision: i8,
    pub root_delay_ns: u64,
    pub root_dispersion_ns: u64,
    pub reference_id: [u8; 4],
    /// The origin field as it stands, which should be the nonce of the request.
    pub origin: NtpTimestamp,
    /// t₂: when the server received the request.
    pub receive_unix_ns: i128,
    /// t₃: when the server sent the response.
    pub transmit_unix_ns: i128,
}

/// The fields of a packet, as they stand in its bytes.
pub open spec fn packet_leap(b: Seq<u8>) -> int {
    b[0] as int / 64
}

pub open spec fn packet_version(b: Seq<u8>) -> int {
    b[0] as int / 8 % 8
}

pub open spec fn packet_mode(b: Seq<u8>) -> int {
    b[0] as int % 8
}

pub open spec fn packet_timestamp(b: Seq<u8>, at: int) -> NtpTimestamp {
    NtpTimestamp(be_value(b.subrange(at, at + 8)) as u64)
}

/// A byte as a two's complement number.
pub open spec fn signed_byte(b: u8) -> int {
    if b < 128 {
        b as int
    } else {
        b - 256
    }
}

/// What [`String::from_utf8_lossy`] makes of bytes.
pub uninterp spec fn lossy_text(bytes: Seq<u8>) -> Seq<char>;

/// Calls [`String::from_utf8_lossy`], whose result depends on the bytes alone. Bytes that
/// are UTF-8 become the text they encode; what stands in for a malformed sequence is not
/// spelled out.
#[verifier::external_body]
fn from_utf8_lossy(bytes: &[u8]) -> (s: String)
    ensures
        s@ == lossy_text(bytes@),
        valid_utf8(bytes@) ==> s@ == decode_utf8(bytes@),
{
    String::from_utf8_lossy(bytes).into_owned()
}

/// Text without the zero characters at its end.
pub open spec fn without_trailing_zeros(s: Seq<char>) -> Seq<char>
    decreases s.len(),
{
    if s.len() > 0 && s.last() == '\0' {
        without_trailing_zeros(s.drop_last())
    } else {
        s
    }
}

fn trim_trailing_zeros(s: &str) -> (t: String)
    ensures
        t@ == without_trailing_zeros(s@),
{
    let mut n: usize = s.unicode_len();
    proof {
        assert(s@.subrange(0, n as int) =~= s@);
    }
    while n > 0 && s.get_char(n - 1) == '\0'
        invariant
            n <= s@.len(),
            without_trailing_zeros(s@.subrange(0, n as int)) == without_trailing_zeros(s@),
        decreases n,
    {
        proof {
            assert(s@.subrange(0, n as int).drop_last() =~= s@.subrange(0, n - 1));
        }
        n = n - 1;
    }
    s.substring_char(0, n).to_owned()
}

/// Four numbers with dots between them.
pub open spec fn dotted(r: Seq<u8>) -> Seq<char> {
    decimal(r[0] as nat) + "."@ + decimal(r[1] as nat) + "."@ + decimal(r[2] as nat) + "."@
        + decimal(r[3] as nat)
}

impl NtpResponse {
    /// Whether the response holds what the bytes of a packet say.
    pub open spec fn decodes(self, b: Seq<u8>) -> bool {
        &&& self.leap_indicator == packet_leap(b)
        &&& self.version == packet_version(b)
        &&& self.stratum == b[1]
        &&& self.precision == signed_byte(b[3])
        &&& self.root_delay_ns == short_ns(be_value(b.subrange(4, 8)) as int)
        &&& self.root_dispersion_ns == short_ns(be_value(b.subrange(8, 12)) as int)
        &&& self.reference_id@ == b.subrange(12, 16)
        &&& self.origin == packet_timestamp(b, 24)
        &&& self.receive_unix_ns == packet_timestamp(b, 32).unix_ns()
        &&& self.transmit_unix_ns == packet_timestamp(b, 40).unix_ns()
    }

    /// What decoding bytes gives: the first fault in the order of the checks, or the
    /// response.
    pub open spec fn parse_gives(b: Seq<u8>, r: Result<NtpResponse, NtpError>) -> bool {
        if b.len() < PACKET_LEN {
            r matches Err(NtpError::TooShort(n)) && n == b.len()
        } else if !(3 <= packet_version(b) <= 4) {
            r matches Err(NtpError::BadVersion(v)) && v == packet_version(b)
        } else if packet_mode(b) != 4 {
            r matches Err(NtpError::BadMode(m)) && m == packet_mode(b)
        } else if b[1] == 0 {
            r matches Err(NtpError::KissOfDeath(code)) && code@ == lossy_text(b.subrange(12, 16))
                && (valid_utf8(b.subrange(12, 16)) ==> code@ == decode_utf8(b.subrange(12, 16)))
        } else if b[1] > MAX_STRATUM {
            r matches Err(NtpError::BadStratum(s)) && s == b[1]
        } else if packet_leap(b) == 3 {
            r matches Err(NtpError::Unsynchronized)
        } else if packet_timestamp(b, 32).0 == 0 || packet_timestamp(b, 40).0 == 0 {
            r matches Err(NtpError::ZeroTimestamp)
        } else {
            r matches Ok(p) && p.decodes(b)
        }
    }

    /// The values that decoding can give are far inside the range of their types.
    pub open spec fn in_range(self) -> bool {
        &&& self.root_delay_ns <= 0x1_0000_0000 * 1_000_000_000 / 65_536
        &&& self.root_dispersion_ns <= 0x1_0000_0000 * 1_000_000_000 / 65_536
        &&& 0 <= self.receive_unix_ns < 0x2_0000_0000 * 1_000_000_000
        &&& 0 <= self.transmit_unix_ns < 0x2_0000_0000 * 1_000_000_000
    }

    pub fn parse(b: &[u8]) -> (r: Result<NtpResponse, NtpError>)
        ensures
            NtpResponse::parse_gives(b@, r),
            r is Ok ==> r->Ok_0.in_range(),
    {
        if b.len() < PACKET_LEN {
            return Err(NtpError::TooShort(b.len()));
        }
        let leap_indicator: u8 = b[0] / 64;
        let version: u8 = b[0] / 8 % 8;
        let mode: u8 = b[0] % 8;
        let stratum: u8 = b[1];
        if version < 3 || version > 4 {
            return Err(NtpError::BadVersion(version));
        }
        if mode != 4 {
            return Err(NtpError::BadMode(mode));
        }
        let reference_id: [u8; 4] = [b[12], b[13], b[14], b[15]];
        proof {
            assert(reference_id@ =~= b@.subrange(12, 16));
        }
        if stratum == 0 {
            let code: String = from_utf8_lossy(&reference_id);
            return Err(NtpError::KissOfDeath(code));
        }
        if stratum > MAX_STRATUM {
            return Err(NtpError::BadStratum(stratum));
        }
        if leap_indicator == 3 {
            return Err(NtpError::Unsynchronized);
        }
        let origin: NtpTimestamp = timestamp_at(b, 24);
        let receive: NtpTimestamp = timestamp_at(b, 32);
        let transmit: NtpTimestamp = timestamp_at(b, 40);
        if receive.is_zero() || transmit.is_zero() {
            return Err(NtpError::ZeroTimestamp);
        }
        proof {
            assert(seq![b@[4], b@[5], b@[6], b@[7]] =~= b@.subrange(4, 8));
            assert(seq![b@[8], b@[9], b@[10], b@[11]] =~= b@.subrange(8, 12));
        }
        Ok(
            NtpResponse {
                leap_indicator,
                version,
                stratum,
                precision: byte_as_signed(b[3]),
                root_delay_ns: short_to_ns(be_u32(b[4], b[5], b[6], b[7])),
                root_dispersion_ns: short_to_ns(be_u32(b[8], b[9], b[10], b[11])),
                reference_id,
                origin,
                receive_unix_ns: receive.to_unix_ns(),
                transmit_unix_ns: transmit.to_unix_ns(),
            },
        )
    }

    /// The server's own bound on its error: the dispersion and half the delay.
    pub open spec fn error_ns(self) -> int {
        self.root_dispersion_ns + self.root_delay_ns / 2
    }

    pub fn server_error_ns(&self) -> (e: u64)
        requires
            self.error_ns() <= u64::MAX,
        ensures
            e == self.root_dispersion_ns + self.root_delay_ns / 2,
            e == self.error_ns(),
    {
        self.root_dispersion_ns + self.root_delay_ns / 2
    }

    /// The reference id for people: a four-character code at stratum 1, else the IPv4
    /// address of the server above.
    pub fn reference_id_string(&self) -> (s: String)
        ensures
            s@ == (if self.stratum == 1 {
                without_trailing_zeros(lossy_text(self.reference_id@))
            } else {
                dotted(self.reference_id@)
            }),
            self.stratum == 1 && valid_utf8(self.reference_id@) ==> s@ == without_trailing_zeros(
                decode_utf8(self.reference_id@),
            ),
    {
        if self.stratum == 1 {
            trim_trailing_zeros(from_utf8_lossy(&self.reference_id).as_str())
        } else {
            let mut s: String = String::new();
            push_decimal(&mut s, self.reference_id[0] as u128);
            s.append(".");
            push_decimal(&mut s, self.reference_id[1] as u128);
            s.append(".");
            push_decimal(&mut s, self.reference_id[2] as u128);
            s.append(".");
            push_decimal(&mut s, self.reference_id[3] as u128);
            assert(s@ =~= dotted(self.reference_id@));
            s
        }
    }
}

fn byte_as_signed(b: u8) -> (n: i8)
    ensures
        n == signed_byte(b),
{
    if b < 128 {
        b as i8
    } else {
        (b as i16 - 256) as i8
    }
}

/// The timestamp at a place of a packet.
pub fn timestamp_at(b: &[u8], at: usize) -> (t: NtpTimestamp)
    requires
        at + 8 <= b@.len(),
    ensures
        t == packet_timestamp(b@, at as int),
{
    let a: [u8; 8] = [
        b[at],
        b[at + 1],
        b[at + 2],
        b[at + 3],
        b[at + 4],
        b[at + 5],
        b[at + 6],
        b[at + 7],
    ];
    proof {
        assert(a@ =~= b@.subrange(at as int, at + 8));
    }
    NtpTimestamp::from_be_bytes(a)
}

/// One whole exchange.
#[derive(Clone, Debug, PartialEq, Eq)]
pub struct Exchange {
    pub sample: Sample,
    pub response: NtpResponse,
    /// t₁: when the host sent.
    pub sent: HostTime,
    /// t₄: when the host received.
    pub received: HostTime,
    /// t₄ − t₁.
    pub round_trip: Duration,
}

/// The lower bound of θ: t₃ − t₄, less the server's error.
pub open spec fn offset_lo(response: NtpResponse, received: HostTime, tb: Timebase) -> int {
    response.transmit_unix_ns - received.nanos(tb) - response.error_ns()
}

/// The upper bound of θ: t₂ − t₁, and the server's error.
pub open spec fn offset_hi(response: NtpResponse, sent: HostTime, tb: Timebase) -> int {
    response.receive_unix_ns - sent.nanos(tb) + response.error_ns()
}

/// What an exchange comes to: the first fault in the order of the checks, or the sample
/// with its bounds.
pub open spec fn exchange_gives(
    source: SourceKind,
    nonce: u64,
    sent: HostTime,
    received: HostTime,
    response: NtpResponse,
    tb: Timebase,
    r: Result<Exchange, NtpError>,
) -> bool {
    if response.origin.0 != nonce {
        r matches Err(NtpError::OriginMismatch)
    } else if received.0 < sent.0 || response.transmit_unix_ns < response.receive_unix_ns {
        r matches Err(NtpError::NonMonotonic)
    } else if offset_lo(response, received, tb) > offset_hi(response, sent, tb) {
        r matches Err(NtpError::InvertedInterval)
    } else {
        &&& r matches Ok(x)
        &&& x.sample.source == source
        &&& x.sample.at.0 == sent.0 / 2 + received.0 / 2
        &&& x.sample.lo_ns == offset_lo(response, received, tb)
        &&& x.sample.hi_ns == offset_hi(response, sent, tb)
        &&& x.response == response
        &&& x.sent == sent
        &&& x.received == received
        &&& x.round_trip@ == tb.nanos_of(received.0 - sent.0)
    }
}

/// Turns the four timestamps of an exchange into a sample.
///
/// Neither way takes negative time, so θ lies in [t₃ − t₄, t₂ − t₁], widened by the error
/// that the server admits. `sent` and `received` count from the machine's start, so θ is
/// Unix time minus time since the start throughout the program.
pub fn sample_from_exchange(
    source: SourceKind,
    nonce: u64,
    sent: HostTime,
    received: HostTime,
    response: NtpResponse,
    tb: Timebase,
) -> (r: Result<Exchange, NtpError>)
    requires
        response.error_ns() <= u64::MAX,
        fits_i128(response.transmit_unix_ns - received.nanos(tb)),
        fits_i128(response.receive_unix_ns - sent.nanos(tb)),
        fits_i128(offset_lo(response, received, tb)),
        fits_i128(offset_hi(response, sent, tb)),
    ensures
        exchange_gives(source, nonce, sent, received, response, tb, r),
{
    if response.origin.0 != nonce {
        return Err(NtpError::OriginMismatch);
    }
    if received.0 < sent.0 || response.transmit_unix_ns < response.receive_unix_ns {
        return Err(NtpError::NonMonotonic);
    }
    let t1: i128 = sent.as_nanos(tb) as i128;
    let t4: i128 = received.as_nanos(tb) as i128;
    let err: i128 = response.server_error_ns() as i128;
    let lo: i128 = response.transmit_unix_ns - t4 - err;
    let hi: i128 = response.receive_unix_ns - t1 + err;
    let at: HostTime = HostTime::from_ticks(sent.ticks() / 2 + received.ticks() / 2);
    match Sample::new(source, at, lo, hi) {
        None => Err(NtpError::InvertedInterval),
        Some(sample) => Ok(
            Exchange {
                sample,
                response,
                sent,
                received,
                round_trip: received.saturating_duration_since(sent, tb),
            },
        ),
    }
}

/// The true offset is never lost: wherever the request took `there` and the response
/// `back`, neither negative, and the server's two stamps are within its admitted error,
/// the bounds hold θ.
pub proof fn bounds_hold_the_true_offset(
    response: NtpResponse,
    sent: HostTime,
    received: HostTime,
    tb: Timebase,
    theta: int,
    there: int,
    back: int,
)
    requires
        there >= 0,
        back >= 0,
        crate::arith::abs(response.receive_unix_ns - (sent.nanos(tb) + theta + there))
            <= response.root_dispersion_ns + response.root_delay_ns / 2,
        crate::arith::abs(response.transmit_unix_ns - (received.nanos(tb) + theta - back))
            <= response.root_dispersion_ns + response.root_delay_ns / 2,
    ensures
        offset_lo(response, received, tb) <= theta <= offset_hi(response, sent, tb),
{
}

/// An arrival read late only widens the interval: what the earlier reading allowed, the
/// later one allows too.
pub proof fn late_arrival_only_widens(
    response: NtpResponse,
    early: HostTime,
    late: HostTime,
    tb: Timebase,
)
    requires
        early.nanos(tb) <= late.nanos(tb),
    ensures
        offset_lo(response, late, tb) <= offset_lo(response, early, tb),
{
}

/// The interval is as wide as the round trip less the server's own time, and twice the
/// admitted error.
pub proof fn interval_width_is_the_delay(
    response: NtpResponse,
    sent: HostTime,
    received: HostTime,
    tb: Timebase,
)
    ensures
        offset_hi(response, sent, tb) - offset_lo(response, received, tb) == (received.nanos(tb)
            - sent.nanos(tb)) - (response.transmit_unix_ns - response.receive_unix_ns) + 2 * (
        response.root_dispersion_ns + response.root_delay_ns / 2),
{
}

/// An exchange whose four times fit together gives a sample that holds the true offset. Let the
/// nonce come back, let neither way take negative time, and let each of the server's two stamps
/// be off by at most its root dispersion and half its root delay: then there is a sample, the
/// true offset is within its bounds, and the bounds are no further apart than the round trip
/// less the server's own time, and twice that error.
pub proof fn an_honest_exchange_holds_the_true_offset(
    source: SourceKind,
    nonce: u64,
    sent: HostTime,
    received: HostTime,
    response: NtpResponse,
    tb: Timebase,
    r: Result<Exchange, NtpError>,
    theta: int,
    there: int,
    back: int,
)
    requires
        exchange_gives(source, nonce, sent, received, response, tb, r),
        response.origin.0 == nonce,
        sent.0 <= received.0,
        response.receive_unix_ns <= response.transmit_unix_ns,
        there >= 0,
        back >= 0,
        ({
            let error = response.root_dispersion_ns + response.root_delay_ns / 2;
            &&& -error <= response.receive_unix_ns - (sent.nanos(tb) + theta + there) <= error
            &&& -error <= response.transmit_unix_ns - (received.nanos(tb) + theta - back) <= error
        }),
    ensures
        r is Ok,
        r->Ok_0.sample.lo_ns <= theta <= r->Ok_0.sample.hi_ns,
        r->Ok_0.sample.hi_ns - r->Ok_0.sample.lo_ns == (received.nanos(tb) - sent.nanos(tb)) - (
        response.transmit_unix_ns - response.receive_unix_ns) + 2 * (response.root_dispersion_ns
            + response.root_delay_ns / 2),
{
}

/// The bounds are no wider than they have to be: at either end there is an exchange with no way
/// at all on one side and a stamp as far off as the server admits.
pub proof fn the_bounds_are_tight(
    source: SourceKind,
    nonce: u64,
    sent: HostTime,
    received: HostTime,
    response: NtpResponse,
    tb: Timebase,
    x: Exchange,
)
    requires
        exchange_gives(source, nonce, sent, received, response, tb, Ok(x)),
    ensures
        ({
            let error = response.root_dispersion_ns + response.root_delay_ns / 2;
            &&& response.receive_unix_ns + error == sent.nanos(tb) + x.sample.hi_ns
            &&& response.transmit_unix_ns - error == received.nanos(tb) + x.sample.lo_ns
        }),
{
}

/// A sample comes of an exchange only where it can be one: the nonce came back, nobody received
/// before the other sent, and the server did not take longer than the round trip and its error
/// allow. It is of the source that was asked, and its time lies between sending and receiving,
/// no more than a tick off the middle.
pub proof fn a_sample_needs_a_sound_exchange(
    source: SourceKind,
    nonce: u64,
    sent: HostTime,
    received: HostTime,
    response: NtpResponse,
    tb: Timebase,
    x: Exchange,
)
    requires
        exchange_gives(source, nonce, sent, received, response, tb, Ok(x)),
    ensures
        response.origin.0 == nonce,
        sent.0 <= received.0,
        response.receive_unix_ns <= response.transmit_unix_ns,
        x.sample.lo_ns <= x.sample.hi_ns,
        x.sample.source == source,
        -2 <= 2 * x.sample.at.0 - (sent.0 + received.0) <= 0,
        x.round_trip@ == tb.nanos_of(received.0 - sent.0),
{
}

/// An exchange that is refused is refused for what is wrong with it.
pub proof fn a_refused_exchange_says_why(
    source: SourceKind,
    nonce: u64,
    sent: HostTime,
    received: HostTime,
    response: NtpResponse,
    tb: Timebase,
    r: Result<Exchange, NtpError>,
)
    requires
        exchange_gives(source, nonce, sent, received, response, tb, r),
    ensures
        response.origin.0 != nonce <==> r == Err::<Exchange, NtpError>(NtpError::OriginMismatch),
        response.origin.0 == nonce && (sent.0 > received.0 || response.receive_unix_ns
            > response.transmit_unix_ns) <==> r == Err::<Exchange, NtpError>(
            NtpError::NonMonotonic,
        ),
        r == Err::<Exchange, NtpError>(NtpError::InvertedInterval) ==> (response.transmit_unix_ns
            - response.receive_unix_ns) > (received.nanos(tb) - sent.nanos(tb)) + 2 * (
        response.root_dispersion_ns + response.root_delay_ns / 2),
{
}

/// The first byte of a packet is the leap warning, the version and the mode, two bits, three and
/// three.
pub proof fn the_first_byte_has_three_parts(b: Seq<u8>, leap: int, version: int, mode: int)
    requires
        b.len() > 0,
        0 <= leap < 4,
        0 <= version < 8,
        0 <= mode < 8,
        b[0] == 64 * leap + 8 * version + mode,
    ensures
        packet_leap(b) == leap,
        packet_version(b) == version,
        packet_mode(b) == mode,
{
}

/// A response is taken just where it is one: a whole packet of version 3 or 4 in server mode,
/// from a server of stratum 1 to 15 that is synchronised, with both its stamps.
pub proof fn only_a_sound_packet_is_a_response(
    b: Seq<u8>,
    r: Result<NtpResponse, NtpError>,
    leap: int,
    version: int,
    mode: int,
)
    requires
        NtpResponse::parse_gives(b, r),
        b.len() > 0,
        0 <= leap < 4,
        0 <= version < 8,
        0 <= mode < 8,
        b[0] == 64 * leap + 8 * version + mode,
    ensures
        r is Ok <==> b.len() >= 48 && (version == 3 || version == 4) && mode == 4 && 1 <= b[1] <= 15
            && leap != 3 && be_value(b.subrange(32, 40)) != 0 && be_value(b.subrange(40, 48)) != 0,
        r is Ok ==> r->Ok_0.leap_indicator == leap && r->Ok_0.version == version
            && r->Ok_0.stratum == b[1],
        b.len() >= 48 && (version < 3 || version > 4) ==> r == Err::<NtpResponse, NtpError>(
            NtpError::BadVersion(version as u8),
        ),
        b.len() >= 48 && (version == 3 || version == 4) && mode != 4 ==> r == Err::<
            NtpResponse,
            NtpError,
        >(NtpError::BadMode(mode as u8)),
        b.len() < 48 ==> r is Err && r->Err_0 is TooShort,
{
    the_first_byte_has_three_parts(b, leap, version, mode);
    if b.len() >= 48 {
        eight_bytes_fit(b.subrange(32, 40));
        eight_bytes_fit(b.subrange(40, 48));
    }
}

/// Eight bytes spell a number of sixty-four bits.
pub proof fn eight_bytes_fit(s: Seq<u8>)
    requires
        s.len() == 8,
    ensures
        be_value(s) <= u64::MAX,
{
    lemma_be_value_8(s);
}

/// The first byte counts most: of two byte strings of one length, the one whose first different
/// byte is larger spells the larger number.
pub proof fn the_first_byte_counts_most(a: Seq<u8>, b: Seq<u8>, i: int)
    requires
        a.len() == b.len(),
        0 <= i < a.len(),
        forall|j: int| 0 <= j < i ==> #[trigger] a[j] == b[j],
        a[i] < b[i],
    ensures
        be_value(a) < be_value(b),
    decreases a.len(),
{
    let (fa, fb) = (a.drop_last(), b.drop_last());
    if i < a.len() - 1 {
        assert(forall|j: int| 0 <= j < i ==> #[trigger] fa[j] == fb[j]);
        the_first_byte_counts_most(fa, fb, i);
    } else {
        assert(fa =~= fb) by {
            assert(forall|j: int| 0 <= j < fa.len() ==> fa[j] == a[j] && fb[j] == b[j]);
        }
    }
}

/// A single byte spells itself, and another behind it makes what was there count 256 times.
pub proof fn bytes_spell_a_number(a: Seq<u8>, last: u8)
    ensures
        be_value(seq![last]) == last,
        be_value(a.push(last)) == 256 * be_value(a) + last,
{
    reveal_with_fuel(be_value, 2);
    assert(seq![last].drop_last() =~= Seq::<u8>::empty());
    assert(a.push(last).drop_last() =~= a);
}

/// The nonce that a request carries in its last eight bytes is the origin of the response that
/// has them in bytes 24 to 31.
pub proof fn a_copied_nonce_comes_back(request: Seq<u8>, nonce: u64, b: Seq<u8>, r: NtpResponse)
    requires
        request.len() == 48,
        be_value(request.subrange(40, 48)) == nonce,
        b.len() >= 48,
        b.subrange(24, 32) == request.subrange(40, 48),
        NtpResponse::parse_gives(b, Ok(r)),
    ensures
        r.origin.0 == nonce,
{
}

/// Where the fields of a response are read: the delay from bytes 4 to 7, the dispersion from 8 to
/// 11, the reference from 12 to 15, the two stamps from 32 and from 40 on.
pub proof fn the_fields_stand_in_their_places(b: Seq<u8>, r: NtpResponse)
    requires
        NtpResponse::parse_gives(b, Ok(r)),
    ensures
        r.precision as int % 256 == b[3],
        r.reference_id@[0] == b[12] && r.reference_id@[3] == b[15],
        r.root_delay_ns * 65_536 <= be_value(b.subrange(4, 8)) * 1_000_000_000
            < r.root_delay_ns * 65_536 + 65_536,
        r.root_dispersion_ns * 65_536 <= be_value(b.subrange(8, 12)) * 1_000_000_000
            < r.root_dispersion_ns * 65_536 + 65_536,
        r.receive_unix_ns == NtpTimestamp(be_value(b.subrange(32, 40)) as u64).unix_ns(),
        r.transmit_unix_ns == NtpTimestamp(be_value(b.subrange(40, 48)) as u64).unix_ns(),
{
    assert(r.reference_id@[0] == b.subrange(12, 16)[0]);
    assert(r.reference_id@[3] == b.subrange(12, 16)[3]);
}

/// Timestamps count seconds from 1900, and 1970 is 2 208 988 800 of them later; smaller counts
/// belong to the round after 2036. The fraction is cut to whole nanoseconds.
pub proof fn timestamps_count_from_1900(secs: u32, frac: u32)
    ensures
        ({
            let t = NtpTimestamp((secs * 0x1_0000_0000 + frac) as u64);
            let ns = t.unix_ns();
            let whole = if secs >= 2_208_988_800 {
                secs - 2_208_988_800
            } else {
                secs + 0x1_0000_0000 - 2_208_988_800
            };
            &&& whole * 1_000_000_000 <= ns < (whole + 1) * 1_000_000_000
            &&& 0 <= frac * 1_000_000_000 - (ns - whole * 1_000_000_000) * 0x1_0000_0000
                < 0x1_0000_0000
        }),
{
    let t = NtpTimestamp((secs * 0x1_0000_0000 + frac) as u64);
    assert(t.0 as int / 0x1_0000_0000 == secs);
    assert(t.0 as int % 0x1_0000_0000 == frac);
}

/// A later time has no earlier timestamp, as long as the seconds do not run over.
pub proof fn timestamps_keep_the_order(a: int, b: int)
    requires
        0 <= a <= b,
        b / 1_000_000_000 + 2_208_988_800 < 0x1_0000_0000,
    ensures
        NtpTimestamp::of_unix_ns(a) <= NtpTimestamp::of_unix_ns(b),
{
    let (sa, sb) = (a / 1_000_000_000 + 2_208_988_800, b / 1_000_000_000 + 2_208_988_800);
    assert(sa <= sb);
    let (fa, fb) = (a % 1_000_000_000, b % 1_000_000_000);
    assert(fa * 0x1_0000_0000 / 1_000_000_000 < 0x1_0000_0000);
    if sa == sb {
        assert(fa <= fb);
        vstd::arithmetic::div_mod::lemma_div_is_ordered(
            fa * 0x1_0000_0000,
            fb * 0x1_0000_0000,
            1_000_000_000,
        );
    }
}

/// A byte with a sign is the byte itself, or 256 less where that is negative.
pub proof fn a_byte_with_a_sign_differs_by_a_whole_round(b: u8)
    ensures
        -128 <= signed_byte(b) <= 127,
        (b - signed_byte(b)) % 256 == 0,
{
}

/// A short time is in units of one second over 65 536, cut to whole nanoseconds.
pub proof fn short_times_are_cut_to_nanoseconds(v: nat)
    ensures
        0 <= v * 1_000_000_000 - short_ns(v as int) * 65_536 < 65_536,
{
}

/// A reference that is an address reads as the address does.
pub proof fn a_reference_reads_as_an_address(a: u8, b: u8, c: u8, d: u8)
    ensures
        dotted(seq![a, b, c, d]) == crate::sync::event::ip_text(
            (((a * 256 + b) * 256 + c) * 256 + d) as u32,
        ),
{
    crate::sync::event::an_address_reads_byte_by_byte(a, b, c, d);
}

/// Only zeros at the end are taken away, and all of them.
pub proof fn only_zeros_at_the_end_are_taken_away(s: Seq<char>)
    ensures
        ({
            let t = without_trailing_zeros(s);
            &&& t.len() <= s.len()
            &&& t == s.subrange(0, t.len() as int)
            &&& t.len() > 0 ==> t.last() != '\0'
            &&& forall|i: int| t.len() <= i < s.len() ==> #[trigger] s[i] == '\0'
        }),
    decreases s.len(),
{
    if s.len() > 0 && s.last() == '\0' {
        only_zeros_at_the_end_are_taken_away(s.drop_last());
        let t = without_trailing_zeros(s.drop_last());
        assert(t =~= s.subrange(0, t.len() as int));
        assert forall|i: int| t.len() <= i < s.len() implies #[trigger] s[i] == '\0' by {
            if i < s.len() - 1 {
                assert(s.drop_last()[i] == '\0');
            }
        }
    } else {
        assert(s =~= s.subrange(0, s.len() as int));
    }
}

/// A packet of a server that is refused says why: stratum 0 with the code in its reference field,
/// a stratum above 15 with that, then a server that is not synchronised, then a stamp that is
/// missing.
pub proof fn a_refused_packet_says_why(b: Seq<u8>, r: Result<NtpResponse, NtpError>, leap: int)
    requires
        NtpResponse::parse_gives(b, r),
        b.len() >= 48,
        0 <= leap < 4,
        b[0] == 64 * leap + 8 * 4 + 4,
    ensures
        b[1] == 0 ==> r is Err && r->Err_0 is KissOfDeath,
        b[1] == 0 && valid_utf8(seq![b[12], b[13], b[14], b[15]]) ==> r->Err_0->KissOfDeath_0@
            == decode_utf8(seq![b[12], b[13], b[14], b[15]]),
        b[1] > 15 ==> r == Err::<NtpResponse, NtpError>(NtpError::BadStratum(b[1])),
        1 <= b[1] <= 15 && leap == 3 ==> r == Err::<NtpResponse, NtpError>(
            NtpError::Unsynchronized,
        ),
        1 <= b[1] <= 15 && leap != 3 && r is Err ==> r == Err::<NtpResponse, NtpError>(
            NtpError::ZeroTimestamp,
        ),
{
    the_first_byte_has_three_parts(b, leap, 4, 4);
    assert(b.subrange(12, 16) =~= seq![b[12], b[13], b[14], b[15]]);
}

/// A request is a packet of version 4 in client mode with the nonce at its end.
pub proof fn a_request_carries_its_nonce(request: NtpRequest, b: [u8; 48])
    requires
        call_ensures(NtpRequest::encode, (&request,), b),
    ensures
        packet_leap(b@) == 0,
        packet_version(b@) == 4,
        packet_mode(b@) == 3,
        be_value(b@.subrange(40, 48)) == request.nonce,
{
}

/// The error of a server is its dispersion and half its delay, cut to whole nanoseconds.
pub proof fn the_server_error_is_dispersion_and_half_the_delay(r: NtpResponse, e: u64)
    requires
        call_ensures(NtpResponse::server_error_ns, (&r,), e),
    ensures
        0 <= r.root_delay_ns - 2 * (e - r.root_dispersion_ns) <= 1,
{
}

} // verus!
