use dxlspy::decode::{
    decode_v1_instruction, decode_v2_instruction, v1_error_flags, v1_instr_name, v2_error_flags,
    v2_instr_name, Classifier, Decoded, InstrKind,
};
use dxlspy::parser::{crc16_ibm, Parser, ProtocolVersion, RawPacket, Version};
use std::time::{Duration, Instant};

fn parse_one(bytes: &[u8], mode: Version) -> RawPacket {
    let mut p = Parser::new(mode);
    p.feed(bytes);
    p.next_packet().expect("parsed")
}

fn v2_frame(id: u8, instr: u8, params: &[u8]) -> Vec<u8> {
    let len = (params.len() + 3) as u16;
    let mut p = vec![0xFF, 0xFF, 0xFD, 0x00, id, len as u8, (len >> 8) as u8, instr];
    p.extend_from_slice(params);
    let crc = crc16_ibm(&p);
    p.push(crc as u8);
    p.push((crc >> 8) as u8);
    p
}

fn packet(version: ProtocolVersion, id: u8, instr_or_err: u8, params: &[u8]) -> RawPacket {
    RawPacket { version, id, instr_or_err, params: params.to_vec(), raw: Vec::new() }
}

fn v1(id: u8, instr_or_err: u8, params: &[u8]) -> RawPacket {
    packet(ProtocolVersion::V1, id, instr_or_err, params)
}

fn v2(id: u8, instr_or_err: u8, params: &[u8]) -> RawPacket {
    packet(ProtocolVersion::V2, id, instr_or_err, params)
}

const MS: u128 = 1_000_000;

#[test]
fn v2_status_is_slave() {
    let raw = parse_one(&v2_frame(0x05, 0x55, &[0x00, 0xAA, 0xBB]), Version::V2);
    let mut c = Classifier::default();
    match c.classify(raw) {
        Decoded::Slave(s) => {
            assert_eq!(s.error, 0);
            assert_eq!(s.data, vec![0xAA, 0xBB]);
        }
        _ => panic!("expected slave"),
    }
}

#[test]
fn v2_read_is_master_with_kind() {
    // READ addr 0x0084 (132), len 4
    let raw = parse_one(&v2_frame(0x01, 0x02, &[0x84, 0x00, 0x04, 0x00]), Version::V2);
    let mut c = Classifier::default();
    match c.classify(raw) {
        Decoded::Master(i) => {
            assert_eq!(i.name, "READ");
            match i.kind {
                InstrKind::Read { addr, len } => {
                    assert_eq!(addr, 132);
                    assert_eq!(len, 4);
                }
                _ => panic!("expected Read"),
            }
        }
        _ => panic!("expected master"),
    }
}

#[test]
fn v1_request_then_reply_pairing() {
    // Master READ to ID 5
    let req_bytes = {
        let body = [5u8, 4, 2, 0x24, 0x02];
        let sum: u32 = body.iter().map(|&b| b as u32).sum();
        let cs = !(sum as u8);
        let mut v = vec![0xFF, 0xFF];
        v.extend_from_slice(&body);
        v.push(cs);
        v
    };
    // Slave reply from ID 5: err=0, params=[0x00, 0x08]
    let rep_bytes = {
        let body = [5u8, 4, 0, 0x00, 0x08];
        let sum: u32 = body.iter().map(|&b| b as u32).sum();
        let cs = !(sum as u8);
        let mut v = vec![0xFF, 0xFF];
        v.extend_from_slice(&body);
        v.push(cs);
        v
    };
    let mut p = Parser::new(Version::V1);
    p.feed(&req_bytes);
    p.feed(&rep_bytes);
    let mut c = Classifier::default();
    let a = c.classify(p.next_packet().unwrap());
    let b = c.classify(p.next_packet().unwrap());
    assert!(matches!(a, Decoded::Master(_)));
    assert!(matches!(b, Decoded::Slave(_)));
}

#[test]
fn v1_broadcast_is_master_no_pending() {
    let mut bytes = vec![0xFF, 0xFF, 0xFE, 4, 0x83, 0x1E, 0x04];
    let sum: u32 = bytes[2..].iter().map(|&b| b as u32).sum();
    bytes.push(!(sum as u8));
    let raw = parse_one(&bytes, Version::V1);
    let mut c = Classifier::default();
    let d = c.classify(raw);
    assert!(matches!(d, Decoded::Master(_)));
    assert!(c.expects_no_reply());
}

/// A master scans absent IDs, and scans them again a long time later. The second
/// PING is no reply to the first.
#[test]
fn v1_pending_expires_after_timeout() {
    // PING to ID 0: FF FF 00 02 01 FC
    let mut bytes = vec![0xFF, 0xFF, 0x00, 0x02, 0x01];
    let sum: u32 = bytes[2..].iter().map(|&b| b as u32).sum();
    bytes.push(!(sum as u8));

    let parse = |b: &[u8]| {
        let mut p = Parser::new(Version::V1);
        p.feed(b);
        p.next_packet().expect("parsed")
    };

    let mut c = Classifier::new(Duration::from_millis(5));
    // First scan: master pings absent ID 0.
    let a = c.classify(parse(&bytes));
    assert!(matches!(a, Decoded::Master(_)), "first ping should be master");

    // Wait long enough for the pending entry to expire.
    let waiting = Instant::now();
    while waiting.elapsed() < Duration::from_millis(15) {}

    // Second scan: the same bytes. This is a fresh PING of the master.
    let b = c.classify(parse(&bytes));
    assert!(
        matches!(b, Decoded::Master(_)),
        "second ping (after timeout) should be master, not a phantom status reply"
    );
}

/// With a long timeout the same frame twice pairs up, first as instruction, then as
/// reply: the v1 ambiguity.
#[test]
fn v1_pending_within_timeout_still_pairs() {
    let mut bytes = vec![0xFF, 0xFF, 0x00, 0x02, 0x01];
    let sum: u32 = bytes[2..].iter().map(|&b| b as u32).sum();
    bytes.push(!(sum as u8));
    let parse = |b: &[u8]| {
        let mut p = Parser::new(Version::V1);
        p.feed(b);
        p.next_packet().expect("parsed")
    };
    let mut c = Classifier::new(Duration::from_secs(60));
    let a = c.classify(parse(&bytes));
    let b = c.classify(parse(&bytes));
    assert!(matches!(a, Decoded::Master(_)));
    assert!(matches!(b, Decoded::Slave(_)));
}

#[test]
fn the_timeout_itself_is_too_late() {
    let mut c = Classifier::new(Duration::from_millis(5));
    assert!(matches!(c.classify_at(v1(3, 0x01, &[]), 0), Decoded::Master(_)));
    assert!(matches!(c.classify_at(v1(3, 0x01, &[]), 5 * MS), Decoded::Master(_)));
    assert!(matches!(c.classify_at(v1(3, 0x01, &[]), 10 * MS - 1), Decoded::Slave(_)));
}

#[test]
fn default_timeout_is_fifty_milliseconds() {
    let mut c = Classifier::default();
    assert!(matches!(c.classify_at(v1(3, 0x01, &[]), 0), Decoded::Master(_)));
    assert!(matches!(c.classify_at(v1(3, 0x01, &[]), 50 * MS - 1), Decoded::Slave(_)));
    assert!(matches!(c.classify_at(v1(3, 0x01, &[]), 60 * MS), Decoded::Master(_)));
    assert!(matches!(c.classify_at(v1(3, 0x01, &[]), 110 * MS), Decoded::Master(_)));
}

#[test]
fn expiring_twice_keeps_the_young() {
    let mut c = Classifier::new(Duration::from_millis(5));
    c.classify_at(v1(1, 0x01, &[]), 0);
    c.classify_at(v1(2, 0x01, &[]), 2 * MS);
    // Both of these drop what is five milliseconds old, and nothing else.
    assert!(matches!(c.classify_at(v1(9, 0x77, &[]), 5 * MS), Decoded::Unknown(_)));
    assert!(matches!(c.classify_at(v1(9, 0x77, &[]), 5 * MS), Decoded::Unknown(_)));
    assert!(matches!(c.classify_at(v1(1, 0x77, &[]), 5 * MS), Decoded::Unknown(_)));
    assert!(matches!(c.classify_at(v1(2, 0x77, &[]), 7 * MS - 1), Decoded::Slave(_)));
    assert!(c.expects_no_reply());
}

#[test]
fn a_clock_that_steps_back_does_not_expire() {
    let mut c = Classifier::new(Duration::from_millis(5));
    assert!(matches!(c.classify_at(v1(3, 0x02, &[0, 1]), 100 * MS), Decoded::Master(_)));
    assert!(matches!(c.classify_at(v1(3, 0x00, &[9]), 0), Decoded::Slave(_)));
}

#[test]
fn reply_is_found_behind_unrelated_traffic() {
    let mut c = Classifier::new(Duration::from_millis(5));
    assert!(matches!(c.classify_at(v1(1, 0x02, &[0, 1]), 0), Decoded::Master(_)));
    assert!(matches!(c.classify_at(v1(2, 0x01, &[]), MS), Decoded::Master(_)));
    assert!(matches!(c.classify_at(v2(1, 0x01, &[]), MS), Decoded::Master(_)));
    match c.classify_at(v1(1, 0x21, &[7, 8]), 4 * MS) {
        Decoded::Slave(s) => {
            assert_eq!(s.error, 0x21);
            assert_eq!(s.error_flags, vec!["INPUT_VOLTAGE", "OVERLOAD"]);
            assert_eq!(s.data, vec![7, 8]);
            assert_eq!(s.raw, v1(1, 0x21, &[7, 8]));
        }
        _ => panic!("expected slave"),
    }
    // The reply ended the wait.
    assert!(matches!(c.classify_at(v1(1, 0x21, &[]), 4 * MS), Decoded::Unknown(_)));
    assert!(!c.expects_no_reply());
}

#[test]
fn broadcast_ends_all_waiting() {
    let mut c = Classifier::new(Duration::from_millis(5));
    c.classify_at(v1(1, 0x01, &[]), 0);
    assert!(!c.expects_no_reply());
    assert!(matches!(c.classify_at(v1(0xFE, 0x05, &[]), 1), Decoded::Master(_)));
    assert!(c.expects_no_reply());
    assert!(matches!(c.classify_at(v1(1, 0x01, &[]), 2), Decoded::Master(_)));
}

#[test]
fn unknown_v1_byte_is_unknown() {
    let mut c = Classifier::default();
    match c.classify_at(v1(9, 0x00, &[1]), 0) {
        Decoded::Unknown(p) => assert_eq!(p, v1(9, 0x00, &[1])),
        _ => panic!("expected unknown"),
    }
    assert!(c.expects_no_reply());
    match c.classify_at(v1(0xFE, 0x77, &[1]), 0) {
        Decoded::Master(i) => {
            assert_eq!(i.name, "UNKNOWN");
            assert!(matches!(i.kind, InstrKind::Other));
        }
        _ => panic!("expected master"),
    }
}

#[test]
fn v2_does_not_touch_waiting() {
    let mut c = Classifier::new(Duration::from_millis(5));
    c.classify_at(v1(1, 0x01, &[]), 0);
    assert!(matches!(c.classify_at(v2(1, 0x55, &[0x81]), 1), Decoded::Slave(_)));
    assert!(matches!(c.classify_at(v1(1, 0x01, &[]), 2), Decoded::Slave(_)));
}

#[test]
fn v2_status_without_parameters() {
    let mut c = Classifier::default();
    match c.classify(v2(1, 0x55, &[])) {
        Decoded::Slave(s) => {
            assert_eq!(s.error, 0);
            assert!(s.error_flags.is_empty());
            assert!(s.data.is_empty());
        }
        _ => panic!("expected slave"),
    }
}

#[test]
fn v1_instruction_kinds() {
    let kind = |instr: u8, params: &[u8]| decode_v1_instruction(v1(1, instr, params)).kind;
    assert!(matches!(kind(0x01, &[]), InstrKind::Ping));
    assert!(matches!(kind(0x02, &[36, 2]), InstrKind::Read { addr: 36, len: 2 }));
    assert!(matches!(kind(0x02, &[36]), InstrKind::Other));
    match kind(0x03, &[30, 1, 2]) {
        InstrKind::Write { addr, data } => {
            assert_eq!(addr, 30);
            assert_eq!(data, vec![1, 2]);
        }
        _ => panic!("expected write"),
    }
    assert!(matches!(kind(0x03, &[]), InstrKind::Other));
    match kind(0x04, &[30]) {
        InstrKind::RegWrite { addr, data } => {
            assert_eq!(addr, 30);
            assert!(data.is_empty());
        }
        _ => panic!("expected reg write"),
    }
    assert!(matches!(kind(0x05, &[]), InstrKind::Action));
    assert!(matches!(kind(0x06, &[]), InstrKind::FactoryReset));
    assert!(matches!(kind(0x08, &[]), InstrKind::Reboot));
    match kind(0x83, &[30, 2, 1, 10, 11, 2, 20, 21, 3, 30]) {
        InstrKind::SyncWrite { addr, len, entries } => {
            assert_eq!((addr, len), (30, 2));
            assert_eq!(entries, vec![(1, vec![10, 11]), (2, vec![20, 21])]);
        }
        _ => panic!("expected sync write"),
    }
    match kind(0x83, &[30, 0, 1, 2]) {
        InstrKind::SyncWrite { entries, .. } => assert_eq!(entries, vec![(1, vec![]), (2, vec![])]),
        _ => panic!("expected sync write"),
    }
    match kind(0x92, &[0, 2, 1, 36, 4, 5, 30, 9]) {
        InstrKind::BulkRead { entries } => assert_eq!(entries, vec![(1, 36, 2), (5, 30, 4)]),
        _ => panic!("expected bulk read"),
    }
    assert!(matches!(kind(0x92, &[]), InstrKind::Other));
    assert!(matches!(kind(0x07, &[]), InstrKind::Other));
}

#[test]
fn v2_instruction_kinds() {
    let kind = |instr: u8, params: &[u8]| decode_v2_instruction(v2(1, instr, params)).kind;
    assert!(matches!(kind(0x01, &[]), InstrKind::Ping));
    assert!(matches!(kind(0x02, &[0x84, 1, 4, 2]), InstrKind::Read { addr: 0x184, len: 0x204 }));
    assert!(matches!(kind(0x02, &[0x84, 1, 4]), InstrKind::Other));
    match kind(0x03, &[0x84, 0, 9]) {
        InstrKind::Write { addr, data } => {
            assert_eq!(addr, 0x84);
            assert_eq!(data, vec![9]);
        }
        _ => panic!("expected write"),
    }
    match kind(0x04, &[0x84, 2]) {
        InstrKind::RegWrite { addr, data } => {
            assert_eq!(addr, 0x284);
            assert!(data.is_empty());
        }
        _ => panic!("expected reg write"),
    }
    match kind(0x82, &[0x84, 0, 4, 0, 1, 2, 3]) {
        InstrKind::SyncRead { addr, len, ids } => {
            assert_eq!((addr, len), (0x84, 4));
            assert_eq!(ids, vec![1, 2, 3]);
        }
        _ => panic!("expected sync read"),
    }
    match kind(0x83, &[0x74, 0, 2, 0, 1, 10, 11, 2, 20, 21]) {
        InstrKind::SyncWrite { addr, len, entries } => {
            assert_eq!((addr, len), (0x74, 2));
            assert_eq!(entries, vec![(1, vec![10, 11]), (2, vec![20, 21])]);
        }
        _ => panic!("expected sync write"),
    }
    match kind(0x93, &[1, 0x20, 0, 2, 0, 7, 8, 2, 0x30, 1, 1, 0, 9, 3, 0, 0, 5, 0, 1]) {
        InstrKind::BulkWrite { entries } => {
            assert_eq!(entries, vec![(1, 0x20, vec![7, 8]), (2, 0x130, vec![9])]);
        }
        _ => panic!("expected bulk write"),
    }
    assert!(matches!(kind(0x93, &[]), InstrKind::Other));
    assert!(matches!(kind(0x92, &[1, 0, 0, 4, 0]), InstrKind::Other));
}

#[test]
fn instruction_names() {
    assert_eq!(v1_instr_name(0x06), Some("FACTORY_RESET"));
    assert_eq!(v1_instr_name(0x82), None);
    assert_eq!(v2_instr_name(0x82), Some("SYNC_READ"));
    assert_eq!(v2_instr_name(0x20), Some("CONTROL_TABLE_BACKUP"));
    assert_eq!(v2_instr_name(0x9A), Some("FAST_BULK_READ"));
    assert_eq!(v2_instr_name(0x00), None);
}

#[test]
fn error_flags() {
    assert_eq!(v1_error_flags(0x00), Vec::<&str>::new());
    assert_eq!(v1_error_flags(0x80), Vec::<&str>::new());
    assert_eq!(v1_error_flags(0x01), vec!["INPUT_VOLTAGE"]);
    assert_eq!(
        v1_error_flags(0x7F),
        vec![
            "INPUT_VOLTAGE",
            "ANGLE_LIMIT",
            "OVERHEATING",
            "RANGE",
            "CHECKSUM",
            "OVERLOAD",
            "INSTRUCTION"
        ]
    );
    assert_eq!(v2_error_flags(0x00), Vec::<&str>::new());
    assert_eq!(v2_error_flags(0x80), vec!["HW_ALERT"]);
    assert_eq!(v2_error_flags(0x83), vec!["HW_ALERT", "CRC_ERR"]);
    assert_eq!(v2_error_flags(0x07), vec!["ACCESS"]);
    assert_eq!(v2_error_flags(0x08), vec!["UNKNOWN_ERR"]);
}
