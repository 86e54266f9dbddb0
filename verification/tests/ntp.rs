//! The packets of NTP, the samples made from them, and asking for them.

use std::collections::HashSet;

use kairos::duration::Duration;
use kairos::model::SourceKind;
use kairos::source::client::{
    nonzero, on_receive, pauses_after, unused, NonceSource, QueryError, Reception, Reply,
};
use kairos::source::ntp::{
    sample_from_exchange, NtpError, NtpRequest, NtpResponse, NtpTimestamp, NTP_UNIX_OFFSET_SECS,
};
use kairos::source::udp::{resolve_ipv4, Address, AddressV4, Received};
use kairos::source::Sample;
use kairos::time::{HostTime, Timebase};

const NS: i128 = 1_000_000_000;

fn tb() -> Timebase {
    Timebase::new(125, 3)
}

#[test]
fn timestamp_unix_epoch_roundtrip() {
    let unix = 1_789_516_800 * NS + 123_456_789;
    let ts = NtpTimestamp::from_unix_ns(unix);
    let back = ts.to_unix_ns();
    assert!((back - unix).abs() <= 1, "back={back} unix={unix}");
}

#[test]
fn timestamp_known_vector() {
    let ts = NtpTimestamp((NTP_UNIX_OFFSET_SECS) << 32);
    assert_eq!(ts.to_unix_ns(), 0);
    let ts = NtpTimestamp((NTP_UNIX_OFFSET_SECS << 32) | 0x8000_0000);
    assert_eq!(ts.to_unix_ns(), 500_000_000);
}

#[test]
fn timestamp_era_1_after_2036() {
    let ts = NtpTimestamp(0 << 32);
    assert_eq!(ts.to_unix_ns(), 2_085_978_496 * NS);
}

#[test]
fn request_encoding() {
    let b = NtpRequest { nonce: 0x1122_3344_5566_7788 }.encode();
    assert_eq!(b.len(), 48);
    assert_eq!(b[0], 0x23);
    assert_eq!(&b[40..48], &0x1122_3344_5566_7788u64.to_be_bytes());
    assert!(b[1..40].iter().all(|&x| x == 0));
}

fn server_packet(nonce: u64, t2_unix: i128, t3_unix: i128) -> [u8; 48] {
    let mut b = [0u8; 48];
    b[0] = 0b00_100_100;
    b[1] = 2;
    b[3] = 0xE9u8;
    b[4..8].copy_from_slice(&0x0000_0100u32.to_be_bytes());
    b[8..12].copy_from_slice(&0x0000_0080u32.to_be_bytes());
    b[12..16].copy_from_slice(&[10, 0, 0, 1]);
    b[24..32].copy_from_slice(&nonce.to_be_bytes());
    b[32..40].copy_from_slice(&NtpTimestamp::from_unix_ns(t2_unix).to_be_bytes());
    b[40..48].copy_from_slice(&NtpTimestamp::from_unix_ns(t3_unix).to_be_bytes());
    b
}

#[test]
fn response_parse_fields() {
    let nonce = 42;
    let t2 = 1_789_516_800 * NS;
    let t3 = t2 + 50_000;
    let r = NtpResponse::parse(&server_packet(nonce, t2, t3)).unwrap();
    assert_eq!(r.version, 4);
    assert_eq!(r.stratum, 2);
    assert_eq!(r.precision, -23);
    assert_eq!(r.root_delay_ns, 3_906_250);
    assert_eq!(r.root_dispersion_ns, 1_953_125);
    assert_eq!(r.reference_id_string(), "10.0.0.1");
    assert_eq!(r.origin.0, nonce);
    assert!((r.receive_unix_ns - t2).abs() <= 1);
    assert!((r.transmit_unix_ns - t3).abs() <= 1);
    assert_eq!(r.server_error_ns(), 1_953_125 + 3_906_250 / 2);
}

#[test]
fn response_rejections() {
    let good = server_packet(1, NS, NS + 1);
    assert_eq!(NtpResponse::parse(&good[..47]), Err(NtpError::TooShort(47)));

    let mut b = good;
    b[0] = 0b00_010_100;
    assert_eq!(NtpResponse::parse(&b), Err(NtpError::BadVersion(2)));

    let mut b = good;
    b[0] = 0b00_100_011;
    assert_eq!(NtpResponse::parse(&b), Err(NtpError::BadMode(3)));

    let mut b = good;
    b[0] = 0b11_100_100;
    assert_eq!(NtpResponse::parse(&b), Err(NtpError::Unsynchronized));

    let mut b = good;
    b[1] = 0;
    b[12..16].copy_from_slice(b"RATE");
    assert_eq!(NtpResponse::parse(&b), Err(NtpError::KissOfDeath("RATE".into())));

    let mut b = good;
    b[1] = 16;
    assert_eq!(NtpResponse::parse(&b), Err(NtpError::BadStratum(16)));

    let mut b = good;
    b[32..40].fill(0);
    assert_eq!(NtpResponse::parse(&b), Err(NtpError::ZeroTimestamp));
}

#[test]
fn sample_interval_from_four_timestamps() {
    let nonce = 7;
    let u = 1_789_516_800 * NS;
    let sent = HostTime::from_nanos(100_000_000, tb());
    let received = HostTime::from_nanos(140_000_000, tb());
    let t2 = u + 1_020_000_000;
    let t3 = u + 1_022_000_000;
    let r = NtpResponse::parse(&server_packet(nonce, t2, t3)).unwrap();
    let err = r.server_error_ns() as i128;

    let ex = sample_from_exchange(SourceKind::Standard, nonce, sent, received, r, tb()).unwrap();
    let s = ex.sample;
    let t1 = sent.as_nanos(tb()) as i128;
    let t4 = received.as_nanos(tb()) as i128;
    assert!((s.lo_ns - (t3 - t4 - err)).abs() <= 1);
    assert!((s.hi_ns - (t2 - t1 + err)).abs() <= 1);
    assert!(s.lo_ns < s.hi_ns);
    assert_eq!(ex.round_trip, Duration::from_millis(40));
    assert_eq!(s.at, HostTime::from_ticks(sent.ticks() / 2 + received.ticks() / 2));
}

#[test]
fn sample_rejects_origin_mismatch_and_inverted() {
    let u = 1_789_516_800 * NS;
    let sent = HostTime::from_nanos(100_000_000, tb());
    let received = HostTime::from_nanos(140_000_000, tb());
    let r = NtpResponse::parse(&server_packet(7, u, u + 1)).unwrap();
    assert_eq!(
        sample_from_exchange(SourceKind::Standard, 8, sent, received, r, tb()).unwrap_err(),
        NtpError::OriginMismatch
    );

    // The server took 100 ms of a round trip of 40 ms.
    let r = NtpResponse::parse(&server_packet(7, u, u + 100_000_000)).unwrap();
    assert_eq!(
        sample_from_exchange(SourceKind::Standard, 7, sent, received, r, tb()).unwrap_err(),
        NtpError::InvertedInterval
    );
}

#[test]
fn sample_rejects_time_that_runs_backwards() {
    let u = 1_789_516_800 * NS;
    let sent = HostTime::from_nanos(140_000_000, tb());
    let received = HostTime::from_nanos(100_000_000, tb());
    let r = NtpResponse::parse(&server_packet(7, u, u + 1)).unwrap();
    assert_eq!(
        sample_from_exchange(SourceKind::Standard, 7, sent, received, r, tb()).unwrap_err(),
        NtpError::NonMonotonic
    );
}

#[test]
fn timestamps_keep_their_bytes() {
    let ts = NtpTimestamp(0x0102_0304_0506_0708);
    assert_eq!(ts.to_be_bytes(), [1, 2, 3, 4, 5, 6, 7, 8]);
    assert_eq!(NtpTimestamp::from_be_bytes([1, 2, 3, 4, 5, 6, 7, 8]), ts);
    assert!(!ts.is_zero());
    assert!(NtpTimestamp(0).is_zero());
}

#[test]
fn reference_ids_are_names_at_the_top_and_addresses_below() {
    let mut b = server_packet(1, NS, NS + 1);
    b[1] = 1;
    b[12..16].copy_from_slice(b"GPS\0");
    assert_eq!(NtpResponse::parse(&b).unwrap().reference_id_string(), "GPS");
    // What is not UTF-8 is replaced.
    b[12..16].copy_from_slice(&[b'A', 0xff, b'B', 0]);
    assert_eq!(NtpResponse::parse(&b).unwrap().reference_id_string(), "A\u{fffd}B");
    b[1] = 3;
    b[12..16].copy_from_slice(&[192, 168, 1, 254]);
    assert_eq!(NtpResponse::parse(&b).unwrap().reference_id_string(), "192.168.1.254");
}

#[test]
fn rejects_inverted_interval() {
    let at = HostTime::from_ticks(0);
    assert!(Sample::new(SourceKind::Standard, at, 10, 9).is_none());
    assert!(Sample::new(SourceKind::Standard, at, 10, 10).is_some());
}

#[test]
fn midpoint_and_half_width() {
    let at = HostTime::from_ticks(0);
    let s = Sample::new(SourceKind::Standard, at, -4, 10).unwrap();
    assert_eq!(s.midpoint_ns(), 3);
    assert_eq!(s.half_width_ns(), 7);
}

#[test]
fn nonces_are_unique_and_nonzero() {
    let mut source = NonceSource::new();
    let a = source.next_nonce();
    let b = source.next_nonce();
    assert_ne!(a, 0);
    assert_ne!(b, 0);
    assert_ne!(a, b);
}

#[test]
fn a_nonce_is_not_given_twice() {
    let given: HashSet<u64> = [1, 7, 8, u64::MAX].into_iter().collect();
    assert_eq!(unused(&given, 5), 5);
    assert_eq!(unused(&given, 7), 9);
    // Past the end comes one, not zero; and zero stands for one.
    assert_eq!(unused(&given, u64::MAX), 2);
    assert_eq!(unused(&given, 0), 2);
    assert_eq!(unused(&HashSet::new(), 0), 1);

    let mut source = NonceSource::new();
    let nonces: Vec<u64> = (0..500).map(|_| source.next_nonce()).collect();
    let different: HashSet<u64> = nonces.iter().copied().collect();
    assert_eq!(different.len(), 500);
    assert!(!different.contains(&0));
    assert_eq!(source.given, different);
    assert_eq!(source.count, 501);
}

#[test]
fn a_hash_of_zero_is_no_nonce() {
    assert_eq!(nonzero(0), 1);
    assert_eq!(nonzero(0x1234), 0x1234);
}

fn packet(len: usize) -> Reception {
    Reception::Packet(Received {
        len,
        kernel_time: Some(HostTime::from_nanos(140_000_000, tb())),
        user_time: HostTime::from_nanos(150_000_000, tb()),
    })
}

#[test]
fn a_query_waits_for_its_own_answer() {
    let u = 1_789_516_800 * NS;
    let sent = HostTime::from_nanos(100_000_000, tb());
    let buf = server_packet(7, u + 1_020_000_000, u + 1_022_000_000);

    // Too short, and another's answer: wait on.
    assert!(matches!(
        on_receive(SourceKind::Standard, 7, sent, packet(10), &buf, tb()),
        Reply::KeepWaiting
    ));
    assert!(matches!(
        on_receive(SourceKind::Standard, 8, sent, packet(48), &buf, tb()),
        Reply::KeepWaiting
    ));

    match on_receive(SourceKind::Standard, 7, sent, packet(48), &buf, tb()) {
        Reply::Done(Ok(ex)) => {
            // The kernel's time counts.
            assert_eq!(ex.received, HostTime::from_nanos(140_000_000, tb()));
            assert_eq!(ex.round_trip, Duration::from_millis(40));
        }
        _ => panic!("no exchange"),
    }

    // Another's packet is passed over however bad it is; its own is an error then.
    let mut request = buf;
    request[0] = 0b00_100_011;
    assert!(matches!(
        on_receive(SourceKind::Standard, 8, sent, packet(48), &request, tb()),
        Reply::KeepWaiting
    ));
    match on_receive(SourceKind::Standard, 7, sent, packet(48), &request, tb()) {
        Reply::Done(Err(e)) => assert_eq!(e, QueryError::Ntp(NtpError::BadMode(3))),
        _ => panic!("no error"),
    }

    let mut bad = buf;
    bad[0] = 0b11_100_100;
    match on_receive(SourceKind::Standard, 7, sent, packet(48), &bad, tb()) {
        Reply::Done(Err(e)) => assert_eq!(e, QueryError::Ntp(NtpError::Unsynchronized)),
        _ => panic!("no error"),
    }
    match on_receive(SourceKind::Standard, 7, sent, Reception::TimedOut, &buf, tb()) {
        Reply::Done(Err(e)) => assert_eq!(e, QueryError::NoMatchingResponse),
        _ => panic!("no error"),
    }
    match on_receive(SourceKind::Standard, 7, sent, Reception::Failed("down".into()), &buf, tb()) {
        Reply::Done(Err(e)) => assert_eq!(e, QueryError::Io("down".into())),
        _ => panic!("no error"),
    }
}

#[test]
fn errors_have_words() {
    let words = [
        (NtpError::TooShort(47), "回應只有 47 位元組"),
        (NtpError::BadVersion(2), "NTP 版本 2 不支援"),
        (NtpError::BadMode(3), "mode 3 不是伺服器回應"),
        (NtpError::Unsynchronized, "伺服器未同步（LI=3）"),
        (NtpError::KissOfDeath("RATE".into()), "伺服器拒絕：RATE"),
        (NtpError::BadStratum(16), "stratum 16 超出範圍"),
        (NtpError::OriginMismatch, "origin 與 nonce 不符"),
        (NtpError::ZeroTimestamp, "時間戳記為零"),
        (NtpError::NonMonotonic, "時間戳記順序矛盾"),
        (NtpError::InvertedInterval, "區間寬度為負"),
    ];
    for (e, text) in words {
        assert_eq!(e.message(), text);
        assert_eq!(QueryError::Ntp(e).message(), format!("NTP：{text}"));
    }
    assert_eq!(QueryError::NoMatchingResponse.message(), "逾時前沒有吻合的回應");
    assert_eq!(QueryError::Io("down".into()).message(), "I/O：down");
}

#[test]
fn arrival_is_the_kernels_where_it_has_one() {
    let user = HostTime::from_ticks(9);
    let r = Received { len: 1, kernel_time: None, user_time: user };
    assert_eq!(r.arrival(), user);
    let k = HostTime::from_ticks(5);
    let r = Received { len: 1, kernel_time: Some(k), user_time: user };
    assert_eq!(r.arrival(), k);
}

#[test]
fn only_the_fourth_version_of_addresses_counts() {
    let a = AddressV4 { ip: 0x7f00_0001, port: 123 };
    let found = vec![Address::V6, Address::V4 { ip: 0x7f00_0001, port: 123 }];
    assert_eq!(resolve_ipv4("localhost", &found), Ok(vec![a]));
    assert_eq!(
        resolve_ipv4("localhost", &vec![Address::V6]),
        Err("localhost 沒有 IPv4 位址".to_string())
    );
}

#[test]
fn a_burst_pauses_between_its_queries() {
    assert!(pauses_after(0, 4));
    assert!(pauses_after(2, 4));
    assert!(!pauses_after(3, 4));
}
