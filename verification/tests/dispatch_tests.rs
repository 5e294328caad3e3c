use pingr::clock::Timestamp;
use pingr::datagram::Icmp;
use pingr::dispatch::{
    begin_probe, begin_probe_at, exit_at, exit_now, find_duplicate, process_packet,
    process_packet_at, ProbeError, Reception, REQUEST_IDENTIFIER, REQUEST_SEQUENCE,
    TIMEOUT_MILLIS,
};
use pingr::echo::payload;
use pingr::ledger::{Ledger, Probe, ProbeState};
use pnet::packet::ipv4::Ipv4Packet;
use pnet::packet::Packet;

const LOOPBACK: u32 = 0x7f00_0001;
const UNREACHABLE: u32 = 0xc633_6401;

fn at(sec: i64, nsec: i32) -> Timestamp {
    Timestamp { sec, nsec }
}

/// A 64-byte datagram from `source` that carries the Echo message with the
/// given type and sequence number.
fn incoming(source: u32, kind: u8, sequence: u16, ttl: u8) -> Vec<u8> {
    let mut bytes = vec![0u8; 64];
    bytes[0] = 0x45;
    bytes[3] = 64;
    bytes[8] = ttl;
    bytes[9] = 1;
    bytes[12..16].copy_from_slice(&source.to_be_bytes());
    bytes[20..].copy_from_slice(&payload(kind, 0, 0, sequence));
    bytes
}

#[test]
fn constants_of_a_run() {
    assert_eq!(REQUEST_IDENTIFIER, 0);
    assert_eq!(REQUEST_SEQUENCE, 1);
    assert_eq!(TIMEOUT_MILLIS, 1000);
}

#[test]
fn beginning_a_probe_registers_and_builds() {
    let mut ledger = Ledger::new();
    let mut buffer = vec![0u8; 64];
    {
        let request = begin_probe_at(&mut ledger, &mut buffer, LOOPBACK, at(100, 7)).unwrap();
        assert_eq!(request.get_total_length(), 64);
        assert_eq!(request.get_destination().octets(), [127, 0, 0, 1]);
        let frozen = request.to_immutable();
        assert_eq!(frozen.get_icmp_type(), 8);
        assert_eq!(frozen.get_icmp_id(), 0);
        assert_eq!(frozen.get_icmp_sequence(), 1);
    }
    assert_eq!(
        ledger.get(LOOPBACK),
        Some(Probe { time_sent: at(100, 7), state: ProbeState::Pending })
    );
}

#[test]
fn duplicate_target_is_refused_before_any_packet() {
    let mut ledger = Ledger::new();
    let mut first = vec![0u8; 64];
    assert!(begin_probe_at(&mut ledger, &mut first, LOOPBACK, at(100, 0)).is_ok());
    let mut second = vec![0u8; 64];
    let refused = begin_probe_at(&mut ledger, &mut second, LOOPBACK, at(101, 0));
    assert_eq!(refused.err(), Some(ProbeError::DuplicateAddress(LOOPBACK)));
    assert_eq!(second, vec![0u8; 64]);
    assert_eq!(ledger.len(), 1);
    assert_eq!(
        ledger.get(LOOPBACK),
        Some(Probe { time_sent: at(100, 0), state: ProbeState::Pending })
    );
}

#[test]
fn short_buffer_is_refused_and_registers_nothing() {
    let mut ledger = Ledger::new();
    let mut buffer = vec![0u8; 63];
    let refused = begin_probe_at(&mut ledger, &mut buffer, LOOPBACK, at(100, 0));
    assert_eq!(refused.err(), Some(ProbeError::BufferTooSmall));
    assert_eq!(ledger.len(), 0);
    let mut empty = Vec::new();
    let refused = begin_probe(&mut ledger, &mut empty, LOOPBACK);
    assert_eq!(refused.err(), Some(ProbeError::BufferTooSmall));
    assert_eq!(ledger.len(), 0);
}

#[test]
fn short_buffer_is_reported_before_a_duplicate() {
    let mut ledger = Ledger::new();
    ledger.register(LOOPBACK, at(1, 0)).unwrap();
    let mut buffer = vec![0u8; 10];
    let refused = begin_probe_at(&mut ledger, &mut buffer, LOOPBACK, at(2, 0));
    assert_eq!(refused.err(), Some(ProbeError::BufferTooSmall));
}

#[test]
fn loopback_reply_resolves_the_probe() {
    let mut ledger = Ledger::new();
    let mut buffer = vec![0u8; 64];
    assert!(begin_probe_at(&mut ledger, &mut buffer, LOOPBACK, at(100, 0)).is_ok());
    let bytes = incoming(LOOPBACK, 0, 1, 64);
    let reply = Ipv4Packet::new(&bytes).unwrap();
    let outcome = process_packet_at(&reply, &mut ledger, at(100, 12_345_678));
    assert_eq!(
        outcome,
        Reception::Reply { total_length: 64, source: LOOPBACK, sequence: 1, ttl: 64, millis: 12 }
    );
    assert_eq!(
        ledger.get(LOOPBACK),
        Some(Probe { time_sent: at(100, 0), state: ProbeState::Resolved(at(100, 12_345_678)) })
    );
    assert_eq!(exit_at(&mut ledger, at(100, 13_000_000)), (true, vec![]));
}

#[test]
fn reply_fields_come_from_the_datagram() {
    let mut ledger = Ledger::new();
    ledger.register(0x0a01_02fe, at(5, 0)).unwrap();
    let mut bytes = incoming(0x0a01_02fe, 0, 0x0203, 57);
    bytes.extend_from_slice(&[0u8; 20]);
    bytes[2] = 0x01;
    bytes[3] = 0x02;
    let reply = Ipv4Packet::new(&bytes).unwrap();
    assert_eq!(
        process_packet_at(&reply, &mut ledger, at(7, 500_000_000)),
        Reception::Reply {
            total_length: 0x0102,
            source: 0x0a01_02fe,
            sequence: 0x0203,
            ttl: 57,
            millis: 2500,
        }
    );
}

#[test]
fn own_request_seen_on_loopback_is_ignored() {
    let mut ledger = Ledger::new();
    let mut buffer = vec![0u8; 64];
    {
        let request = begin_probe_at(&mut ledger, &mut buffer, LOOPBACK, at(100, 0)).unwrap();
        assert_eq!(request.packet().len(), 64);
    }
    buffer[12..16].copy_from_slice(&[127, 0, 0, 1]);
    let echoed = Ipv4Packet::new(&buffer).unwrap();
    assert_eq!(process_packet_at(&echoed, &mut ledger, at(100, 1)), Reception::Request);
    assert_eq!(
        ledger.get(LOOPBACK),
        Some(Probe { time_sent: at(100, 0), state: ProbeState::Pending })
    );
}

#[test]
fn other_message_types_are_unexpected() {
    let mut ledger = Ledger::new();
    ledger.register(LOOPBACK, at(100, 0)).unwrap();
    let bytes = incoming(LOOPBACK, 3, 1, 64);
    let received = Ipv4Packet::new(&bytes).unwrap();
    assert_eq!(process_packet_at(&received, &mut ledger, at(100, 1)), Reception::Unexpected(3));
    assert_eq!(
        ledger.get(LOOPBACK),
        Some(Probe { time_sent: at(100, 0), state: ProbeState::Pending })
    );
}

#[test]
fn stray_reply_is_discarded() {
    let mut ledger = Ledger::new();
    ledger.register(UNREACHABLE, at(100, 0)).unwrap();
    let bytes = incoming(LOOPBACK, 0, 1, 64);
    let received = Ipv4Packet::new(&bytes).unwrap();
    assert_eq!(
        process_packet_at(&received, &mut ledger, at(100, 1)),
        Reception::Stray(LOOPBACK)
    );
    assert_eq!(ledger.len(), 1);
    assert_eq!(ledger.get(LOOPBACK), None);
}

#[test]
fn second_reply_is_a_duplicate() {
    let mut ledger = Ledger::new();
    ledger.register(LOOPBACK, at(100, 0)).unwrap();
    let bytes = incoming(LOOPBACK, 0, 1, 64);
    let received = Ipv4Packet::new(&bytes).unwrap();
    assert!(matches!(
        process_packet_at(&received, &mut ledger, at(100, 2_000_000)),
        Reception::Reply { millis: 2, .. }
    ));
    assert_eq!(
        process_packet_at(&received, &mut ledger, at(100, 9_000_000)),
        Reception::Duplicate(LOOPBACK)
    );
    assert_eq!(
        ledger.get(LOOPBACK),
        Some(Probe { time_sent: at(100, 0), state: ProbeState::Resolved(at(100, 2_000_000)) })
    );
}

#[test]
fn truncated_message_is_malformed() {
    let mut ledger = Ledger::new();
    ledger.register(LOOPBACK, at(100, 0)).unwrap();
    let mut bytes = incoming(LOOPBACK, 0, 1, 64);
    bytes.truncate(27);
    let received = Ipv4Packet::new(&bytes).unwrap();
    assert_eq!(process_packet_at(&received, &mut ledger, at(100, 1)), Reception::Malformed);
    assert_eq!(
        ledger.get(LOOPBACK),
        Some(Probe { time_sent: at(100, 0), state: ProbeState::Pending })
    );
}

#[test]
fn reply_before_the_request_has_a_negative_time() {
    let mut ledger = Ledger::new();
    ledger.register(LOOPBACK, at(100, 0)).unwrap();
    let bytes = incoming(LOOPBACK, 0, 1, 64);
    let received = Ipv4Packet::new(&bytes).unwrap();
    assert!(matches!(
        process_packet_at(&received, &mut ledger, at(99, 0)),
        Reception::Reply { millis: -1000, .. }
    ));
}

#[test]
fn unanswered_probe_times_out_once_after_a_second() {
    let mut ledger = Ledger::new();
    let mut buffer = vec![0u8; 64];
    assert!(begin_probe_at(&mut ledger, &mut buffer, UNREACHABLE, at(100, 0)).is_ok());
    assert_eq!(exit_at(&mut ledger, at(100, 1_000_000)), (false, vec![]));
    assert_eq!(exit_at(&mut ledger, at(100, 999_999_999)), (false, vec![]));
    assert_eq!(exit_at(&mut ledger, at(101, 0)), (true, vec![UNREACHABLE]));
    assert_eq!(exit_at(&mut ledger, at(101, 1_000_000)), (true, vec![]));
    assert_eq!(
        ledger.get(UNREACHABLE),
        Some(Probe { time_sent: at(100, 0), state: ProbeState::TimedOut })
    );
}

#[test]
fn run_with_one_reply_and_one_timeout() {
    let mut ledger = Ledger::new();
    let mut first = vec![0u8; 64];
    let mut second = vec![0u8; 64];
    assert!(begin_probe_at(&mut ledger, &mut first, LOOPBACK, at(100, 0)).is_ok());
    assert!(begin_probe_at(&mut ledger, &mut second, UNREACHABLE, at(100, 1_000)).is_ok());
    assert_eq!(exit_at(&mut ledger, at(100, 2_000)).0, false);
    let bytes = incoming(LOOPBACK, 0, 1, 64);
    let received = Ipv4Packet::new(&bytes).unwrap();
    assert!(matches!(
        process_packet_at(&received, &mut ledger, at(100, 40_000)),
        Reception::Reply { millis: 0, source: LOOPBACK, .. }
    ));
    assert_eq!(exit_at(&mut ledger, at(100, 900_000_000)), (false, vec![]));
    assert_eq!(exit_at(&mut ledger, at(101, 1_000)), (true, vec![UNREACHABLE]));
    assert_eq!(exit_at(&mut ledger, at(102, 0)), (true, vec![]));
}

#[test]
fn clock_driven_steps() {
    let mut ledger = Ledger::new();
    let mut buffer = vec![0u8; 64];
    assert!(begin_probe(&mut ledger, &mut buffer, LOOPBACK).is_ok());
    let sent = match ledger.get(LOOPBACK) {
        Some(Probe { time_sent, state: ProbeState::Pending }) => time_sent,
        other => panic!("no pending probe: {:?}", other),
    };
    assert!(sent.sec > 1_000_000_000);
    assert!(0 <= sent.nsec && sent.nsec < 1_000_000_000);
    let mut again = vec![0u8; 64];
    assert_eq!(
        begin_probe(&mut ledger, &mut again, LOOPBACK).err(),
        Some(ProbeError::DuplicateAddress(LOOPBACK))
    );
    let bytes = incoming(LOOPBACK, 0, 1, 64);
    let received = Ipv4Packet::new(&bytes).unwrap();
    match process_packet(&received, &mut ledger) {
        Reception::Reply { total_length, source, sequence, ttl, millis } => {
            assert_eq!((total_length, source, sequence, ttl), (64, LOOPBACK, 1, 64));
            assert!(millis >= 0);
            assert!(millis < 60_000);
        },
        other => panic!("not a reply: {:?}", other),
    }
    assert_eq!(exit_now(&mut ledger), (true, vec![]));
}

#[test]
fn clock_driven_scan_waits_for_a_fresh_probe() {
    let mut ledger = Ledger::new();
    let mut buffer = vec![0u8; 64];
    assert!(begin_probe(&mut ledger, &mut buffer, UNREACHABLE).is_ok());
    let sent = ledger.get(UNREACHABLE).unwrap().time_sent;
    let (done, addresses) = exit_now(&mut ledger);
    assert_eq!(addresses.is_empty(), !done);
    let later = Timestamp { sec: sent.sec + 2, nsec: sent.nsec };
    let (done_later, _) = exit_at(&mut ledger, later);
    assert!(done_later);
    assert_eq!(ledger.get(UNREACHABLE).unwrap().state, ProbeState::TimedOut);
}

#[test]
fn distinct_targets_have_no_duplicate() {
    assert_eq!(find_duplicate(&[]), None);
    assert_eq!(find_duplicate(&[LOOPBACK]), None);
    assert_eq!(find_duplicate(&[LOOPBACK, UNREACHABLE, 1, 2, 3]), None);
}

#[test]
fn first_repeated_target_is_found() {
    assert_eq!(find_duplicate(&[LOOPBACK, LOOPBACK]), Some(LOOPBACK));
    assert_eq!(find_duplicate(&[1, 2, 3, 2, 1]), Some(2));
    assert_eq!(find_duplicate(&[1, 2, 3, 1, 2]), Some(1));
    assert_eq!(find_duplicate(&[5, 6, 7, 7]), Some(7));
}

#[test]
fn targets_without_duplicate_are_all_begun() {
    let targets = [LOOPBACK, UNREACHABLE, 0x0a00_0001];
    assert_eq!(find_duplicate(&targets), None);
    let mut ledger = Ledger::new();
    for (i, target) in targets.iter().enumerate() {
        let mut buffer = vec![0u8; 64];
        assert!(begin_probe_at(&mut ledger, &mut buffer, *target, at(100, i as i32)).is_ok());
    }
    assert_eq!(ledger.len(), 3);
}

/// A datagram from `source` with a five-word header and `message` as its
/// whole payload.
fn carrying(source: u32, message: &[u8]) -> Vec<u8> {
    let total = 20 + message.len();
    let mut bytes = vec![0u8; total];
    bytes[0] = 0x45;
    bytes[2] = (total >> 8) as u8;
    bytes[3] = (total & 0xff) as u8;
    bytes[8] = 64;
    bytes[9] = 1;
    bytes[12..16].copy_from_slice(&source.to_be_bytes());
    bytes[20..].copy_from_slice(message);
    bytes
}

#[test]
fn short_message_of_another_type_is_unexpected() {
    let mut ledger = Ledger::new();
    ledger.register(LOOPBACK, at(100, 0)).unwrap();
    let bytes = carrying(LOOPBACK, &[3, 1, 0xfc, 0xfe]);
    let received = Ipv4Packet::new(&bytes).unwrap();
    assert_eq!(process_packet_at(&received, &mut ledger, at(100, 1)), Reception::Unexpected(3));
    let bytes = carrying(LOOPBACK, &[11]);
    let received = Ipv4Packet::new(&bytes).unwrap();
    assert_eq!(process_packet_at(&received, &mut ledger, at(100, 2)), Reception::Unexpected(11));
    assert_eq!(
        ledger.get(LOOPBACK),
        Some(Probe { time_sent: at(100, 0), state: ProbeState::Pending })
    );
}

#[test]
fn short_request_is_ignored() {
    let mut ledger = Ledger::new();
    ledger.register(LOOPBACK, at(100, 0)).unwrap();
    let bytes = carrying(LOOPBACK, &[8, 0, 0xf7, 0xff]);
    let received = Ipv4Packet::new(&bytes).unwrap();
    assert_eq!(process_packet_at(&received, &mut ledger, at(100, 1)), Reception::Request);
    let bytes = carrying(LOOPBACK, &[8]);
    let received = Ipv4Packet::new(&bytes).unwrap();
    assert_eq!(process_packet_at(&received, &mut ledger, at(100, 2)), Reception::Request);
    assert_eq!(
        ledger.get(LOOPBACK),
        Some(Probe { time_sent: at(100, 0), state: ProbeState::Pending })
    );
}

#[test]
fn short_reply_is_malformed() {
    let mut ledger = Ledger::new();
    ledger.register(LOOPBACK, at(100, 0)).unwrap();
    for message in [&[0u8, 0, 0xff, 0xff][..], &[0][..], &[0, 0, 0, 0, 0, 0, 0][..]] {
        let bytes = carrying(LOOPBACK, message);
        let received = Ipv4Packet::new(&bytes).unwrap();
        assert_eq!(process_packet_at(&received, &mut ledger, at(100, 1)), Reception::Malformed);
    }
    assert_eq!(
        ledger.get(LOOPBACK),
        Some(Probe { time_sent: at(100, 0), state: ProbeState::Pending })
    );
}

#[test]
fn datagram_without_payload_is_malformed() {
    let mut ledger = Ledger::new();
    ledger.register(LOOPBACK, at(100, 0)).unwrap();
    let bytes = carrying(LOOPBACK, &[]);
    let received = Ipv4Packet::new(&bytes).unwrap();
    assert_eq!(process_packet_at(&received, &mut ledger, at(100, 1)), Reception::Malformed);
    assert_eq!(
        ledger.get(LOOPBACK),
        Some(Probe { time_sent: at(100, 0), state: ProbeState::Pending })
    );
}

#[test]
fn reply_of_exactly_a_header_is_correlated() {
    let mut ledger = Ledger::new();
    ledger.register(LOOPBACK, at(100, 0)).unwrap();
    let bytes = carrying(LOOPBACK, &[0, 0, 0xff, 0xf8, 0, 0, 0, 7]);
    let received = Ipv4Packet::new(&bytes).unwrap();
    assert_eq!(
        process_packet_at(&received, &mut ledger, at(100, 3_000_000)),
        Reception::Reply { total_length: 28, source: LOOPBACK, sequence: 7, ttl: 64, millis: 3 }
    );
}
