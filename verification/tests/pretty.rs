use dxlspy::decode::{Classifier, Decoded};
use dxlspy::parser::{Parser, ProtocolVersion, RawPacket, Version};
use dxlspy::pretty::Formatter;
use dxlspy::text::hexs;

const TS: &str = "20:02:04.150";

const PLAIN: Formatter = Formatter { color: false, hex: false };
const PLAIN_HEX: Formatter = Formatter { color: false, hex: true };
const COLOR: Formatter = Formatter { color: true, hex: false };
const COLOR_HEX: Formatter = Formatter { color: true, hex: true };

fn packet(version: ProtocolVersion, id: u8, instr_or_err: u8, params: &[u8]) -> RawPacket {
    RawPacket { version, id, instr_or_err, params: params.to_vec(), raw: vec![0xFF, 0x0A] }
}

fn decoded(version: ProtocolVersion, id: u8, instr: u8, params: &[u8]) -> Decoded {
    Classifier::default().classify(packet(version, id, instr, params))
}

fn v1_line(id: u8, instr: u8, params: &[u8]) -> String {
    PLAIN.format("T", &decoded(ProtocolVersion::V1, id, instr, params))
}

fn v2_line(id: u8, instr: u8, params: &[u8]) -> String {
    PLAIN.format("T", &decoded(ProtocolVersion::V2, id, instr, params))
}

/// The lines of the session in the README.
#[test]
fn session_of_a_read_and_a_write() {
    let mut p = Parser::new(Version::Auto);
    let mut c = Classifier::default();
    p.feed(&[0xFF, 0xFF, 0x01, 0x04, 0x02, 0x00, 0x4A, 0xAE]);
    let d = c.classify_at(p.next_packet().unwrap(), 0);
    assert_eq!(
        PLAIN_HEX.format(TS, &d),
        "[20:02:04.150] MASTER → v1  READ        → ID   1  addr=0x0000 len=74  [FF FF 01 04 02 00 4A AE]"
    );
    p.feed(&[0xFF, 0xFF, 0x01, 0x02, 0x01, 0xFB]);
    let d = c.classify_at(p.next_packet().unwrap(), 1);
    assert_eq!(
        PLAIN_HEX.format("20:02:04.179", &d),
        "[20:02:04.179] ID   1 ← v1  STATUS       err=0x01(INPUT_VOLTAGE)  data=  [FF FF 01 02 01 FB]"
    );
    p.feed(&[0xFF, 0xFF, 0x01, 0x05, 0x03, 0x1E, 0x30, 0x07, 0xA1]);
    let d = c.classify_at(p.next_packet().unwrap(), 2);
    assert_eq!(
        PLAIN_HEX.format("20:02:04.178", &d),
        "[20:02:04.178] MASTER → v1  WRITE       → ID   1  addr=0x001E data=30 07  [FF FF 01 05 03 1E 30 07 A1]"
    );
}

#[test]
fn v1_instruction_lines() {
    assert_eq!(v1_line(5, 0x01, &[]), "[T] MASTER → v1  PING        → ID   5");
    assert_eq!(v1_line(50, 0x05, &[]), "[T] MASTER → v1  ACTION      → ID  50");
    assert_eq!(v1_line(200, 0x06, &[]), "[T] MASTER → v1  FACTORY_RESET → ID 200");
    assert_eq!(v1_line(0xFE, 0x08, &[]), "[T] MASTER → v1  REBOOT      → 0xFE");
    assert_eq!(
        v1_line(1, 0x04, &[30]),
        "[T] MASTER → v1  REG_WRITE   → ID   1  addr=0x001E data="
    );
    assert_eq!(
        v1_line(0xFE, 0x83, &[30, 2, 1, 10, 11, 12, 20, 21]),
        "[T] MASTER → v1  SYNC_WRITE  → 0xFE  addr=0x001E len=2 [1=0A 0B] [12=14 15] "
    );
    assert_eq!(
        v1_line(0xFE, 0x92, &[0, 2, 1, 36, 4, 5, 30]),
        "[T] MASTER → v1  BULK_READ   → 0xFE  [ID 1 addr=0x0024 len=2] [ID 5 addr=0x001E len=4] "
    );
    assert_eq!(
        v1_line(0xFE, 0x77, &[1, 255]),
        "[T] MASTER → v1  UNKNOWN     → 0xFE  params=01 FF"
    );
}

#[test]
fn v2_instruction_lines() {
    assert_eq!(
        v2_line(1, 0x02, &[0x84, 0xAB, 0xFF, 0xFF]),
        "[T] MASTER → v2  READ        → ID   1  addr=0xAB84 len=65535"
    );
    assert_eq!(
        v2_line(0xFE, 0x82, &[0x84, 0, 4, 0, 1, 20, 255]),
        "[T] MASTER → v2  SYNC_READ   → 0xFE  addr=0x0084 len=4 ids=[1, 20, 255]"
    );
    assert_eq!(
        v2_line(0xFE, 0x82, &[0x84, 0, 4, 0]),
        "[T] MASTER → v2  SYNC_READ   → 0xFE  addr=0x0084 len=4 ids=[]"
    );
    assert_eq!(
        v2_line(0xFE, 0x93, &[1, 0x20, 0, 2, 0, 7, 8, 2, 0x30, 1, 0, 0]),
        "[T] MASTER → v2  BULK_WRITE  → 0xFE  [ID 1 addr=0x0020 07 08] [ID 2 addr=0x0130 ] "
    );
    assert_eq!(
        v2_line(1, 0x20, &[1]),
        "[T] MASTER → v2  CONTROL_TABLE_BACKUP → ID   1  params=01"
    );
}

#[test]
fn status_lines() {
    assert_eq!(v2_line(7, 0x55, &[0, 1, 2]), "[T] ID   7 ← v2  STATUS       ok  data=01 02");
    assert_eq!(
        v2_line(7, 0x55, &[0x83]),
        "[T] ID   7 ← v2  STATUS       err=0x83(HW_ALERT|CRC_ERR)  data="
    );
    let mut c = Classifier::default();
    c.classify_at(packet(ProtocolVersion::V1, 7, 0x01, &[]), 0);
    let d = c.classify_at(packet(ProtocolVersion::V1, 7, 0x80, &[]), 1);
    assert_eq!(PLAIN.format("T", &d), "[T] ID   7 ← v1  STATUS       err=0x80  data=");
}

#[test]
fn unknown_lines() {
    assert_eq!(
        v1_line(7, 0xA0, &[1, 2]),
        "[T] UNKNOWN  v1  ?            id=7 byte=0xA0 params=01 02"
    );
}

#[test]
fn colored_lines() {
    let master = decoded(ProtocolVersion::V2, 1, 0x01, &[]);
    assert_eq!(
        COLOR_HEX.format("T", &master),
        "[T] \x1b[36;1mMASTER →\x1b[0m \x1b[2mv2\x1b[0m  PING        → ID   1  \x1b[2m[FF 0A]\x1b[0m"
    );
    let slave = decoded(ProtocolVersion::V2, 1, 0x55, &[0x01]);
    assert_eq!(
        COLOR.format("T", &slave),
        "[T] \x1b[32;1mID   1 ←\x1b[0m \x1b[2mv2\x1b[0m  STATUS       \x1b[31;1merr=0x01(RESULT_FAIL)\x1b[0m  data="
    );
    let unknown = decoded(ProtocolVersion::V1, 1, 0x00, &[]);
    assert_eq!(
        COLOR.format("T", &unknown),
        "[T] \x1b[33;1mUNKNOWN \x1b[0m \x1b[2mv1\x1b[0m  ?            id=1 byte=0x00 params="
    );
}

#[test]
fn dump_comes_last() {
    for version in [ProtocolVersion::V1, ProtocolVersion::V2] {
        for instr in 0..=255u8 {
            let d = decoded(version, 1, instr, &[1, 2, 3, 4, 5, 6]);
            assert_eq!(PLAIN_HEX.format(TS, &d), format!("{}  [FF 0A]", PLAIN.format(TS, &d)));
            assert!(!COLOR_HEX.format(TS, &d).contains('\n'));
            assert!(!PLAIN_HEX.format(TS, &d).contains('\x1b'));
        }
    }
}

/// The text without its escape sequences.
fn visible(s: &str) -> String {
    let mut out = String::new();
    let mut inside = false;
    for c in s.chars() {
        if inside {
            inside = c != 'm';
        } else if c == '\x1b' {
            inside = true;
        } else {
            out.push(c);
        }
    }
    out
}

#[test]
fn color_adds_only_escapes() {
    for version in [ProtocolVersion::V1, ProtocolVersion::V2] {
        for instr in 0..=255u8 {
            let d = decoded(version, 1, instr, &[0x81, 2, 3, 4, 5, 6]);
            assert_ne!(COLOR_HEX.format(TS, &d), PLAIN_HEX.format(TS, &d));
            assert_eq!(visible(&COLOR_HEX.format(TS, &d)), PLAIN_HEX.format(TS, &d));
        }
    }
}

#[test]
fn hex_of_bytes() {
    assert_eq!(hexs(&[]), "");
    assert_eq!(hexs(&[0x0F]), "0F");
    assert_eq!(hexs(&[0x00, 0xAB, 0xFF]), "00 AB FF");
}
