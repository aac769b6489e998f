//! What packets mean: the instructions, error flags and replies of both protocol
//! versions, and how traffic is told apart into instructions and replies.

use vstd::prelude::*;

use crate::bytes;
use crate::frame::Packet;
use crate::parser::ProtocolVersion;

verus! {

/// The ID that addresses every device on the bus.
pub const BROADCAST_ID: u8 = 0xFE;

/// The instruction byte that marks a v2 status packet.
pub const V2_STATUS: u8 = 0x55;

/// What an instruction asks for.
#[verifier::ext_equal]
pub enum Kind {
    Ping,
    Read { addr: u16, len: u16 },
    Write { addr: u16, data: Seq<u8> },
    RegWrite { addr: u16, data: Seq<u8> },
    Action,
    FactoryReset,
    Reboot,
    SyncRead { addr: u16, len: u16, ids: Seq<u8> },
    SyncWrite { addr: u16, len: u16, entries: Seq<(u8, Seq<u8>)> },
    BulkRead { entries: Seq<(u8, u16, u16)> },
    BulkWrite { entries: Seq<(u8, u16, Seq<u8>)> },
    Other,
}

/// What a packet is on the bus.
#[verifier::ext_equal]
pub enum Meaning {
    /// An instruction of the master.
    Master { packet: Packet, name: Seq<char>, kind: Kind },
    /// A status reply of a slave.
    Slave { packet: Packet, error: u8, error_flags: Seq<Seq<char>>, data: Seq<u8> },
    /// Neither can be told.
    Unknown { packet: Packet },
}

/// The packet that was given a meaning.
pub open spec fn packet_of(m: Meaning) -> Packet {
    match m {
        Meaning::Master { packet, .. } => packet,
        Meaning::Slave { packet, .. } => packet,
        Meaning::Unknown { packet } => packet,
    }
}

/// The name of a v1 instruction byte.
pub open spec fn v1_name(b: u8) -> Option<Seq<char>> {
    if b == 0x01 {
        Some("PING"@)
    } else if b == 0x02 {
        Some("READ"@)
    } else if b == 0x03 {
        Some("WRITE"@)
    } else if b == 0x04 {
        Some("REG_WRITE"@)
    } else if b == 0x05 {
        Some("ACTION"@)
    } else if b == 0x06 {
        Some("FACTORY_RESET"@)
    } else if b == 0x08 {
        Some("REBOOT"@)
    } else if b == 0x83 {
        Some("SYNC_WRITE"@)
    } else if b == 0x92 {
        Some("BULK_READ"@)
    } else {
        None
    }
}

/// The name of a v2 instruction byte. Version 2 keeps the bytes of version 1 and
/// adds some.
pub open spec fn v2_name(b: u8) -> Option<Seq<char>> {
    if b == 0x10 {
        Some("CLEAR"@)
    } else if b == 0x20 {
        Some("CONTROL_TABLE_BACKUP"@)
    } else if b == 0x55 {
        Some("STATUS"@)
    } else if b == 0x82 {
        Some("SYNC_READ"@)
    } else if b == 0x8A {
        Some("FAST_SYNC_READ"@)
    } else if b == 0x93 {
        Some("BULK_WRITE"@)
    } else if b == 0x9A {
        Some("FAST_BULK_READ"@)
    } else {
        v1_name(b)
    }
}

/// The given name, or the name of what has none.
pub open spec fn name_or_unknown(name: Option<Seq<char>>) -> Seq<char> {
    match name {
        Some(n) => n,
        None => "UNKNOWN"@,
    }
}

/// The entries of a sync write: the body is cut into pieces of one ID and `len`
/// data bytes each. A shorter piece at the end is left out.
pub open spec fn sync_entries(body: Seq<u8>, len: nat) -> Seq<(u8, Seq<u8>)> {
    let stride = len + 1;
    Seq::new(
        body.len() / stride,
        |i: int| (body[i * stride], body.subrange(i * stride + 1, i * stride + stride)),
    )
}

/// The entries of a v1 bulk read: pieces of length, ID and address, given as ID,
/// address and length. A shorter piece at the end is left out.
pub open spec fn bulk_read_entries(body: Seq<u8>) -> Seq<(u8, u16, u16)> {
    Seq::new(
        body.len() / 3,
        |i: int| (body[3 * i + 1], body[3 * i + 2] as u16, body[3 * i] as u16),
    )
}

/// The entries of a v2 bulk write: pieces of ID, address, length and as many data
/// bytes. The first piece that is not whole ends the list.
pub open spec fn bulk_write_entries(body: Seq<u8>) -> Seq<(u8, u16, Seq<u8>)>
    decreases body.len(),
{
    if body.len() < 5 {
        Seq::empty()
    } else {
        let end = 5 + bytes::le16(body[3], body[4]);
        if end > body.len() {
            Seq::empty()
        } else {
            seq![(body[0], bytes::le16(body[1], body[2]), body.subrange(5, end))]
                + bulk_write_entries(body.skip(end))
        }
    }
}

/// What a v1 instruction asks for. Addresses and lengths are single bytes. An
/// instruction without the parameters that it needs is `Other`.
pub open spec fn v1_kind(instr: u8, params: Seq<u8>) -> Kind {
    let n = params.len() as int;
    if instr == 0x01 {
        Kind::Ping
    } else if instr == 0x02 && n >= 2 {
        Kind::Read { addr: params[0] as u16, len: params[1] as u16 }
    } else if instr == 0x03 && n >= 1 {
        Kind::Write { addr: params[0] as u16, data: params.skip(1) }
    } else if instr == 0x04 && n >= 1 {
        Kind::RegWrite { addr: params[0] as u16, data: params.skip(1) }
    } else if instr == 0x05 {
        Kind::Action
    } else if instr == 0x06 {
        Kind::FactoryReset
    } else if instr == 0x08 {
        Kind::Reboot
    } else if instr == 0x83 && n >= 2 {
        Kind::SyncWrite {
            addr: params[0] as u16,
            len: params[1] as u16,
            entries: sync_entries(params.skip(2), params[1] as nat),
        }
    } else if instr == 0x92 && n >= 1 {
        Kind::BulkRead { entries: bulk_read_entries(params.skip(1)) }
    } else {
        Kind::Other
    }
}

/// What a v2 instruction asks for. Addresses and lengths are two bytes, low byte
/// first. An instruction without the parameters that it needs is `Other`.
pub open spec fn v2_kind(instr: u8, params: Seq<u8>) -> Kind {
    let n = params.len() as int;
    let first = bytes::le16(params[0], params[1]);
    let second = bytes::le16(params[2], params[3]);
    if instr == 0x01 {
        Kind::Ping
    } else if instr == 0x02 && n >= 4 {
        Kind::Read { addr: first, len: second }
    } else if instr == 0x03 && n >= 2 {
        Kind::Write { addr: first, data: params.skip(2) }
    } else if instr == 0x04 && n >= 2 {
        Kind::RegWrite { addr: first, data: params.skip(2) }
    } else if instr == 0x05 {
        Kind::Action
    } else if instr == 0x06 {
        Kind::FactoryReset
    } else if instr == 0x08 {
        Kind::Reboot
    } else if instr == 0x82 && n >= 4 {
        Kind::SyncRead { addr: first, len: second, ids: params.skip(4) }
    } else if instr == 0x83 && n >= 4 {
        Kind::SyncWrite {
            addr: first,
            len: second,
            entries: sync_entries(params.skip(4), second as nat),
        }
    } else if instr == 0x93 && n >= 1 {
        Kind::BulkWrite { entries: bulk_write_entries(params) }
    } else {
        Kind::Other
    }
}

/// The name, if the bit is set.
pub open spec fn flag(b: u8, bit: u8, name: Seq<char>) -> Seq<Seq<char>> {
    if b & bit != 0 {
        seq![name]
    } else {
        Seq::empty()
    }
}

/// The names of the bits that are set in a v1 error byte, lowest bit first. The
/// highest bit has no name.
pub open spec fn v1_flags(b: u8) -> Seq<Seq<char>> {
    flag(b, 0x01, "INPUT_VOLTAGE"@) + flag(b, 0x02, "ANGLE_LIMIT"@) + flag(b, 0x04, "OVERHEATING"@)
        + flag(b, 0x08, "RANGE"@) + flag(b, 0x10, "CHECKSUM"@) + flag(b, 0x20, "OVERLOAD"@) + flag(
        b,
        0x40,
        "INSTRUCTION"@,
    )
}

/// The name of a v2 result code other than zero.
pub open spec fn v2_result_name(code: u8) -> Seq<char> {
    if code == 0x01 {
        "RESULT_FAIL"@
    } else if code == 0x02 {
        "INSTRUCTION_ERR"@
    } else if code == 0x03 {
        "CRC_ERR"@
    } else if code == 0x04 {
        "DATA_RANGE"@
    } else if code == 0x05 {
        "DATA_LENGTH"@
    } else if code == 0x06 {
        "DATA_LIMIT"@
    } else if code == 0x07 {
        "ACCESS"@
    } else {
        "UNKNOWN_ERR"@
    }
}

/// The names of a v2 error byte: the alert latch, which is the highest bit, and the
/// result code in the low seven bits, unless that is zero.
pub open spec fn v2_flags(b: u8) -> Seq<Seq<char>> {
    flag(b, 0x80, "HW_ALERT"@) + (if b & 0x7F != 0 {
        seq![v2_result_name(b & 0x7F)]
    } else {
        Seq::empty()
    })
}

/// A v1 packet as an instruction.
pub open spec fn v1_master(p: Packet) -> Meaning {
    Meaning::Master {
        packet: p,
        name: name_or_unknown(v1_name(p.instr_or_err)),
        kind: v1_kind(p.instr_or_err, p.params),
    }
}

/// A v1 packet as a status reply.
pub open spec fn v1_slave(p: Packet) -> Meaning {
    Meaning::Slave {
        packet: p,
        error: p.instr_or_err,
        error_flags: v1_flags(p.instr_or_err),
        data: p.params,
    }
}

/// A v2 packet as an instruction.
pub open spec fn v2_master(p: Packet) -> Meaning {
    Meaning::Master {
        packet: p,
        name: name_or_unknown(v2_name(p.instr_or_err)),
        kind: v2_kind(p.instr_or_err, p.params),
    }
}

/// A v2 packet as a status reply: the first parameter is the error, and the data
/// follows. A reply without parameters has error zero.
pub open spec fn v2_slave(p: Packet) -> Meaning {
    let error = if p.params.len() == 0 {
        0
    } else {
        p.params[0]
    };
    let data = if p.params.len() == 0 {
        Seq::empty()
    } else {
        p.params.skip(1)
    };
    Meaning::Slave { packet: p, error, error_flags: v2_flags(error), data }
}

/// What a v2 packet means. The instruction byte alone decides.
pub open spec fn v2_meaning(p: Packet) -> Meaning {
    if p.instr_or_err == V2_STATUS {
        v2_slave(p)
    } else {
        v2_master(p)
    }
}

/// The time from `earlier` to `now`, or zero where `earlier` is the later one.
pub open spec fn elapsed(now: u128, earlier: u128) -> int {
    if now >= earlier {
        now - earlier
    } else {
        0
    }
}

/// The instructions that still wait for a reply at time `now`: those sent less than
/// `timeout` ago.
pub open spec fn live(pending: Map<u8, u128>, timeout: u128, now: u128) -> Map<u8, u128> {
    Map::new(
        |id: u8| pending.contains_key(id) && elapsed(now, pending[id]) < timeout,
        |id: u8| pending[id],
    )
}

/// What a packet means that comes at time `now`, when instructions to the IDs of
/// `pending` were sent at the times given there, and what waits for a reply
/// afterwards.
///
/// A v2 packet leaves all that as it is. A v1 broadcast is an instruction, and ends
/// all waiting. Another v1 packet is the reply, if its ID waits for one; an
/// instruction, from now on waited for, if its byte is one; and otherwise unknown.
pub open spec fn step(
    pending: Map<u8, u128>,
    timeout: u128,
    now: u128,
    p: Packet,
) -> (Map<u8, u128>, Meaning) {
    match p.version {
        ProtocolVersion::V2 => (pending, v2_meaning(p)),
        ProtocolVersion::V1 => {
            let waiting = live(pending, timeout, now);
            if p.id == BROADCAST_ID {
                (Map::empty(), v1_master(p))
            } else if waiting.contains_key(p.id) {
                (waiting.remove(p.id), v1_slave(p))
            } else if v1_name(p.instr_or_err) is Some {
                (waiting.insert(p.id, now), v1_master(p))
            } else {
                (waiting, Meaning::Unknown { packet: p })
            }
        },
    }
}

} // verus!
