use dxlspy::parser::{crc16_ibm, Parser, ProtocolVersion, RawPacket, Version};
use dxlspy::stuffing::v2_unstuff;

fn v1_checksum(body: &[u8]) -> u8 {
    let s: u32 = body.iter().map(|&b| b as u32).sum();
    !(s as u8)
}

fn build_v1(id: u8, instr: u8, params: &[u8]) -> Vec<u8> {
    let len = (params.len() + 2) as u8;
    let mut p = vec![0xFF, 0xFF, id, len, instr];
    p.extend_from_slice(params);
    p.push(v1_checksum(&p[2..]));
    p
}

fn build_v2(id: u8, instr: u8, params: &[u8]) -> Vec<u8> {
    let len = (params.len() + 3) as u16;
    let mut p = vec![0xFF, 0xFF, 0xFD, 0x00, id, len as u8, (len >> 8) as u8, instr];
    p.extend_from_slice(params);
    let crc = crc16_ibm(&p);
    p.push(crc as u8);
    p.push((crc >> 8) as u8);
    p
}

fn drain(p: &mut Parser) -> Vec<RawPacket> {
    let mut out = Vec::new();
    while let Some(pkt) = p.next_packet() {
        out.push(pkt);
    }
    out
}

#[test]
fn v1_read_packet() {
    let bytes = build_v1(0x01, 0x02, &[0x24, 0x02]);
    let mut p = Parser::new(Version::V1);
    p.feed(&bytes);
    let pkt = p.next_packet().expect("parsed");
    assert_eq!(pkt.id, 0x01);
    assert_eq!(pkt.instr_or_err, 0x02);
    assert_eq!(pkt.params, vec![0x24, 0x02]);
    assert!(p.next_packet().is_none());
}

#[test]
fn v1_sync_write_broadcast() {
    // SYNC_WRITE on broadcast ID
    let bytes = build_v1(0xFE, 0x83, &[0x1E, 0x04, 0x01, 0x00, 0x00, 0x00, 0x00]);
    let mut p = Parser::new(Version::V1);
    p.feed(&bytes);
    let pkt = p.next_packet().unwrap();
    assert_eq!(pkt.id, 0xFE);
    assert_eq!(pkt.instr_or_err, 0x83);
}

#[test]
fn v1_resync_after_garbage() {
    let mut p = Parser::new(Version::V1);
    let good = build_v1(0x05, 0x02, &[0x24, 0x02]);
    p.feed(&[0xAA, 0xBB, 0xCC]); // garbage
    p.feed(&good);
    let pkt = p.next_packet().expect("should resync");
    assert_eq!(pkt.id, 0x05);
}

#[test]
fn v1_bad_checksum_drops_packet() {
    let mut bytes = build_v1(0x01, 0x02, &[0x24, 0x02]);
    let last = bytes.len() - 1;
    bytes[last] ^= 0xFF;
    // Follow with a good packet: the parser should skip the bad one and find the next.
    let good = build_v1(0x02, 0x02, &[0x24, 0x02]);
    let mut p = Parser::new(Version::V1);
    p.feed(&bytes);
    p.feed(&good);
    let pkt = p.next_packet().expect("recovered");
    assert_eq!(pkt.id, 0x02);
}

#[test]
fn v1_streaming_partial_feed() {
    let bytes = build_v1(0x01, 0x02, &[0x24, 0x02]);
    let mut p = Parser::new(Version::V1);
    for b in &bytes {
        assert!(p.next_packet().is_none());
        p.feed(std::slice::from_ref(b));
    }
    let pkt = p.next_packet().expect("parsed after byte-by-byte feed");
    assert_eq!(pkt.id, 0x01);
}

#[test]
fn v2_status_packet() {
    // Status: instr = 0x55, error = 0x00, params = present_position bytes
    let bytes = build_v2(0x01, 0x55, &[0x00, 0xA6, 0x00, 0x00, 0x00]);
    let mut p = Parser::new(Version::V2);
    p.feed(&bytes);
    let pkt = p.next_packet().expect("parsed");
    assert_eq!(pkt.version, ProtocolVersion::V2);
    assert_eq!(pkt.id, 0x01);
    assert_eq!(pkt.instr_or_err, 0x55);
}

#[test]
fn v2_byte_stuffing_roundtrip() {
    // The payload contains FF FF FD, which on the wire becomes FF FF FD FD.
    let id = 0x01;
    let instr = 0x03;
    // Logical params: FF FF FD AB
    // Wire (stuffed): FF FF FD FD AB
    let stuffed_params: Vec<u8> = vec![0xFF, 0xFF, 0xFD, 0xFD, 0xAB];
    let len = (stuffed_params.len() + 3) as u16;
    let mut frame = vec![0xFF, 0xFF, 0xFD, 0x00, id, len as u8, (len >> 8) as u8, instr];
    frame.extend_from_slice(&stuffed_params);
    let crc = crc16_ibm(&frame);
    frame.push(crc as u8);
    frame.push((crc >> 8) as u8);

    let mut p = Parser::new(Version::V2);
    p.feed(&frame);
    let pkt = p.next_packet().unwrap();
    assert_eq!(pkt.params, vec![0xFF, 0xFF, 0xFD, 0xAB]);
}

#[test]
fn auto_detects_v1_and_v2() {
    let v1 = build_v1(0x01, 0x02, &[0x24, 0x02]);
    let v2 = build_v2(0x02, 0x55, &[0x00, 0xAA]);
    let mut p = Parser::new(Version::Auto);
    p.feed(&v1);
    p.feed(&v2);
    let a = p.next_packet().unwrap();
    let b = p.next_packet().unwrap();
    assert_eq!(a.version, ProtocolVersion::V1);
    assert_eq!(a.id, 0x01);
    assert_eq!(b.version, ProtocolVersion::V2);
    assert_eq!(b.id, 0x02);
}

#[test]
fn crc16_known_vector() {
    // Ping to ID 0x2A: CRC bytes 16 D2, low byte first (value 0xD216).
    let frame = [0xFF, 0xFF, 0xFD, 0x00, 0x2A, 0x03, 0x00, 0x01];
    assert_eq!(crc16_ibm(&frame), 0xD216);
}

#[test]
fn crc16_small_messages() {
    assert_eq!(crc16_ibm(&[]), 0);
    assert_eq!(crc16_ibm(&[0x00]), 0);
    assert_eq!(crc16_ibm(&[0x01]), 0x8005);
    assert_eq!(crc16_ibm(&[0xFF]), 0x0202);
}

#[test]
fn crc16_changes_with_any_byte() {
    let message = [0xFF, 0xFF, 0xFD, 0x00, 0x2A, 0x03, 0x00, 0x01];
    for i in 0..message.len() {
        let mut other = message;
        other[i] ^= 0x10;
        assert_ne!(crc16_ibm(&other), crc16_ibm(&message));
    }
}

#[test]
fn unstuffing_takes_out_stuffing_only() {
    assert_eq!(v2_unstuff(&[]), Vec::<u8>::new());
    assert_eq!(v2_unstuff(&[1, 2, 3]), vec![1, 2, 3]);
    assert_eq!(v2_unstuff(&[0xFF, 0xFF, 0xFD]), vec![0xFF, 0xFF, 0xFD]);
    assert_eq!(v2_unstuff(&[0xFF, 0xFF, 0xFD, 0x00]), vec![0xFF, 0xFF, 0xFD, 0x00]);
    assert_eq!(v2_unstuff(&[0xFF, 0xFF, 0xFD, 0xFD]), vec![0xFF, 0xFF, 0xFD]);
    assert_eq!(v2_unstuff(&[0xFF, 0xFF, 0xFF, 0xFD, 0xFD, 7]), vec![0xFF, 0xFF, 0xFF, 0xFD, 7]);
    assert_eq!(
        v2_unstuff(&[0xFF, 0xFF, 0xFD, 0xFD, 0xFF, 0xFF, 0xFD, 0xFD]),
        vec![0xFF, 0xFF, 0xFD, 0xFF, 0xFF, 0xFD]
    );
}

#[test]
fn packet_keeps_its_wire_bytes() {
    let v1 = build_v1(0x07, 0x03, &[0x1E, 0x30, 0x07]);
    let v2 = build_v2(0x08, 0x03, &[0xFF, 0xFF, 0xFD, 0xFD, 0x01]);
    let mut p = Parser::new(Version::Auto);
    p.feed(&v1);
    p.feed(&v2);
    assert_eq!(p.next_packet().unwrap().raw, v1);
    let b = p.next_packet().unwrap();
    assert_eq!(b.raw, v2);
    assert_eq!(b.params, vec![0xFF, 0xFF, 0xFD, 0x01]);
}

#[test]
fn pieces_of_a_stream_do_not_matter() {
    let mut stream = vec![0x12, 0xFF, 0x34];
    stream.extend(build_v1(0x01, 0x02, &[0x24, 0x02]));
    stream.extend(build_v2(0x02, 0x55, &[0x00, 0xFF, 0xFF, 0xFD, 0xFD]));
    stream.extend([0xFF, 0xFF, 0xFF]);
    stream.extend(build_v1(0x03, 0x01, &[]));
    stream.extend(build_v2(0x04, 0x01, &[]));
    let mut whole = Parser::new(Version::Auto);
    whole.feed(&stream);
    let expected = drain(&mut whole);
    for cut in 0..stream.len() {
        let mut p = Parser::new(Version::Auto);
        p.feed(&stream[..cut]);
        let mut found = drain(&mut p);
        p.feed(&stream[cut..]);
        found.extend(drain(&mut p));
        assert_eq!(found, expected);
    }
}

#[test]
fn changed_bytes_are_noticed() {
    let v1 = build_v1(0x01, 0x02, &[0x24, 0x02]);
    for i in [2usize, 4, 5, 6, 7] {
        let mut bad = v1.clone();
        bad[i] ^= 0x01;
        let mut p = Parser::new(Version::V1);
        p.feed(&bad);
        assert!(p.next_packet().is_none());
    }
    let v2 = build_v2(0x01, 0x02, &[0x24, 0x00, 0x02, 0x00]);
    for i in [4usize, 7, 8, 9, 10, 11, 12, 13] {
        let mut bad = v2.clone();
        bad[i] ^= 0x80;
        let mut p = Parser::new(Version::V2);
        p.feed(&bad);
        assert!(p.next_packet().is_none());
    }
}

#[test]
fn modes_ignore_the_other_version() {
    let v1 = build_v1(0x01, 0x02, &[0x24, 0x02]);
    let v2 = build_v2(0x02, 0x55, &[0x00, 0xAA]);
    let mut p = Parser::new(Version::V2);
    p.feed(&v1);
    p.feed(&v2);
    let pkts = drain(&mut p);
    assert_eq!(pkts.len(), 1);
    assert_eq!(pkts[0].version, ProtocolVersion::V2);
    let mut q = Parser::new(Version::V1);
    q.feed(&v2);
    q.feed(&v1);
    let pkts = drain(&mut q);
    assert_eq!(pkts.len(), 1);
    assert_eq!(pkts[0].version, ProtocolVersion::V1);
}

#[test]
fn ping_frame_layout() {
    for id in [0u8, 1, 0xFC, 0xFD, 0xFF] {
        let frame = [0xFF, 0xFF, id, 0x02, 0x01, 255 - id.wrapping_add(3)];
        let mut p = Parser::new(Version::Auto);
        p.feed(&frame);
        let pkt = p.next_packet().unwrap();
        assert_eq!((pkt.id, pkt.instr_or_err), (id, 0x01));
        assert!(pkt.params.is_empty());
    }
}

#[test]
fn little_is_kept_when_nothing_is_found() {
    // A header that never completes is given up once its bytes rule it out.
    let mut p = Parser::new(Version::V1);
    p.feed(&[0xFF; 600]);
    let _ = drain(&mut p);
    p.feed(&[0x00; 600]);
    assert!(p.next_packet().is_none());
    let good = build_v1(0x02, 0x01, &[]);
    p.feed(&good);
    assert_eq!(p.next_packet().unwrap().raw, good);
    assert!(p.next_packet().is_none());
}

#[test]
fn impossible_lengths_are_skipped() {
    let good = build_v1(0x01, 0x01, &[]);
    // A v1 length below 2 cannot hold instruction and checksum.
    let mut p = Parser::new(Version::V1);
    p.feed(&[0xFF, 0xFF, 0x01, 0x01, 0xFD]);
    p.feed(&good);
    assert_eq!(p.next_packet().unwrap().raw, good);
    // A v2 frame may have 1024 bytes, and not one more.
    let longest = build_v2(0x01, 0x03, &[0u8; 1014]);
    assert_eq!(longest.len(), 1024);
    let mut p = Parser::new(Version::V2);
    p.feed(&longest);
    assert_eq!(p.next_packet().unwrap().params.len(), 1014);
    let mut p = Parser::new(Version::V2);
    p.feed(&build_v2(0x01, 0x03, &[0u8; 1015]));
    p.feed(&longest);
    assert_eq!(p.next_packet().unwrap().raw, longest);
    // A v2 length below 3 cannot hold instruction and CRC.
    let mut p = Parser::new(Version::V2);
    p.feed(&[0xFF, 0xFF, 0xFD, 0x00, 0x01, 0x02, 0x00, 0x01, 0x02]);
    p.feed(&longest);
    assert_eq!(p.next_packet().unwrap().raw, longest);
}
