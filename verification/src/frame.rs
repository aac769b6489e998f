//! What a frame is on the wire, and where the frames of a byte stream lie.

use vstd::prelude::*;

use crate::bytes;
use crate::crc;
use crate::parser::{ProtocolVersion, Version};
use crate::stuffing;

verus! {

/// The longest Protocol v2 frame that is accepted, in bytes.
pub const MAX_V2_FRAME: usize = 1024;

/// The contents of a framed packet.
#[verifier::ext_equal]
pub struct Packet {
    pub version: ProtocolVersion,
    pub id: u8,
    pub instr_or_err: u8,
    /// The parameters without byte stuffing.
    pub params: Seq<u8>,
    /// The frame as it was on the wire.
    pub raw: Seq<u8>,
}

/// What the bytes from a `FF FF` on amount to.
pub enum Verdict {
    /// A whole, valid frame lies at the front.
    Complete(Packet),
    /// More bytes are needed to tell.
    Incomplete,
    /// No frame starts here.
    Reject,
}

/// The v1 checksum of everything between the header and the checksum itself: the
/// complement of the low byte of the sum.
pub open spec fn v1_checksum(body: Seq<u8>) -> u8 {
    (255 - bytes::byte_sum(body) % 256) as u8
}

/// The v1 frame `FF FF ID LEN INSTR PARAMS.. CHECKSUM`, in which LEN counts the
/// bytes after itself.
pub open spec fn v1_frame(id: u8, instr: u8, params: Seq<u8>) -> Seq<u8> {
    let body = seq![id, (params.len() + 2) as u8, instr] + params;
    seq![0xFFu8, 0xFF] + body + seq![v1_checksum(body)]
}

/// The v2 frame `FF FF FD 00 ID LEN_L LEN_H INSTR PARAMS.. CRC_L CRC_H` around
/// parameters that are stuffed already. LEN counts the bytes after itself.
pub open spec fn v2_frame(id: u8, instr: u8, wire_params: Seq<u8>) -> Seq<u8> {
    let len = wire_params.len() + 3;
    let body = seq![
        0xFFu8,
        0xFF,
        0xFD,
        0x00,
        id,
        (len % 256) as u8,
        (len / 256) as u8,
        instr,
    ] + wire_params;
    let check = crc::crc16(body);
    body + seq![(check % 256) as u8, (check / 256) as u8]
}

/// The packet that a whole v1 frame carries.
pub open spec fn v1_packet(frame: Seq<u8>) -> Packet {
    Packet {
        version: ProtocolVersion::V1,
        id: frame[2],
        instr_or_err: frame[4],
        params: frame.subrange(5, frame.len() - 1),
        raw: frame,
    }
}

/// The packet that a whole v2 frame carries.
pub open spec fn v2_packet(frame: Seq<u8>) -> Packet {
    Packet {
        version: ProtocolVersion::V2,
        id: frame[4],
        instr_or_err: frame[7],
        params: stuffing::unstuff(frame.subrange(8, frame.len() - 2)),
        raw: frame,
    }
}

/// Judges bytes that start with `FF FF` as a v1 frame. The length byte must count
/// at least the instruction and the checksum.
pub open spec fn v1_verdict(s: Seq<u8>) -> Verdict {
    if s.len() < 4 {
        Verdict::Incomplete
    } else if s[3] < 2 {
        Verdict::Reject
    } else if s.len() < 4 + s[3] {
        Verdict::Incomplete
    } else {
        let frame = s.take(4 + s[3]);
        if frame.last() == v1_checksum(frame.subrange(2, frame.len() - 1)) {
            Verdict::Complete(v1_packet(frame))
        } else {
            Verdict::Reject
        }
    }
}

/// Judges bytes that start with a v2 header as a v2 frame. The length field must
/// count at least the instruction and the CRC, and the frame must not be longer
/// than [`MAX_V2_FRAME`].
pub open spec fn v2_verdict(s: Seq<u8>) -> Verdict {
    if s.len() < 7 {
        Verdict::Incomplete
    } else {
        let total = 7 + bytes::le16(s[5], s[6]);
        if total < 10 || total > MAX_V2_FRAME {
            Verdict::Reject
        } else if s.len() < total {
            Verdict::Incomplete
        } else {
            let frame = s.take(total);
            let body = frame.take(total - 2);
            if bytes::le16(frame[total - 2], frame[total - 1]) == crc::crc16(body) {
                Verdict::Complete(v2_packet(frame))
            } else {
                Verdict::Reject
            }
        }
    }
}

/// Whether `s` starts with the two bytes that every frame starts with.
pub open spec fn starts_with_header(s: Seq<u8>) -> bool {
    s.len() >= 2 && s[0] == 0xFF && s[1] == 0xFF
}

/// Whether the header of `s` goes on as that of a v2 frame.
pub open spec fn has_v2_header(s: Seq<u8>) -> bool {
    s.len() >= 4 && s[2] == 0xFD && s[3] == 0x00
}

/// Judges the bytes at the front of `s`. In `Auto` mode the header bytes decide
/// the version.
pub open spec fn verdict(mode: Version, s: Seq<u8>) -> Verdict {
    if !starts_with_header(s) {
        Verdict::Reject
    } else if s.len() < 4 {
        Verdict::Incomplete
    } else {
        match mode {
            Version::V1 => v1_verdict(s),
            Version::V2 => if has_v2_header(s) {
                v2_verdict(s)
            } else {
                Verdict::Reject
            },
            Version::Auto => if has_v2_header(s) {
                v2_verdict(s)
            } else {
                v1_verdict(s)
            },
        }
    }
}

/// Looks for the next packet in `buf`: the packet, if there is one, and the bytes
/// that are kept. Where no frame starts, one byte is dropped and the search goes
/// on; the last byte is always kept, since it may be the first of a header.
pub open spec fn scan(mode: Version, buf: Seq<u8>) -> (Option<Packet>, Seq<u8>)
    decreases buf.len(),
{
    if buf.len() < 2 {
        (None, buf)
    } else {
        match verdict(mode, buf) {
            Verdict::Complete(packet) => (Some(packet), buf.skip(packet.raw.len() as int)),
            Verdict::Incomplete => (None, buf),
            Verdict::Reject => scan(mode, buf.skip(1)),
        }
    }
}

} // verus!
