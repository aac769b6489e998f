//! The line of text that stands for a classified packet.

use vstd::prelude::*;

use crate::color;
use crate::frame::Packet;
use crate::meaning::{self, Kind, Meaning, BROADCAST_ID};
use crate::parser::ProtocolVersion;
use crate::text;

verus! {

/// A text painted from the escape sequence `start` on, if color is wanted.
pub open spec fn paint(colored: bool, start: Seq<char>, s: Seq<char>) -> Seq<char> {
    if colored {
        color::painted(start, s)
    } else {
        s
    }
}

/// The protocol version.
pub open spec fn version_text(v: ProtocolVersion) -> Seq<char> {
    match v {
        ProtocolVersion::V1 => "v1"@,
        ProtocolVersion::V2 => "v2"@,
    }
}

/// A device, in a column of three digits.
pub open spec fn device(id: u8) -> Seq<char> {
    "ID "@ + text::pad_left(text::decimal(id as nat), 3)
}

/// Whom an instruction addresses.
pub open spec fn target(id: u8) -> Seq<char> {
    if id == BROADCAST_ID {
        "0xFE"@
    } else {
        device(id)
    }
}

/// An address.
pub open spec fn address(addr: u16) -> Seq<char> {
    "addr=0x"@ + text::hex(addr as nat, 4)
}

/// The entries of a sync write: each ID with its data.
pub open spec fn sync_items(entries: Seq<(u8, Seq<u8>)>) -> Seq<char>
    decreases entries.len(),
{
    if entries.len() == 0 {
        Seq::empty()
    } else {
        let (id, data) = entries.last();
        sync_items(entries.drop_last()) + "["@ + text::decimal(id as nat) + "="@ + text::hex_bytes(
            data,
        ) + "] "@
    }
}

/// The entries of a bulk read: each ID with an address and a length.
pub open spec fn bulk_read_items(entries: Seq<(u8, u16, u16)>) -> Seq<char>
    decreases entries.len(),
{
    if entries.len() == 0 {
        Seq::empty()
    } else {
        let (id, addr, len) = entries.last();
        bulk_read_items(entries.drop_last()) + "[ID "@ + text::decimal(id as nat) + " "@ + address(
            addr,
        ) + " len="@ + text::decimal(len as nat) + "] "@
    }
}

/// The entries of a bulk write: each ID with an address and its data.
pub open spec fn bulk_write_items(entries: Seq<(u8, u16, Seq<u8>)>) -> Seq<char>
    decreases entries.len(),
{
    if entries.len() == 0 {
        Seq::empty()
    } else {
        let (id, addr, data) = entries.last();
        bulk_write_items(entries.drop_last()) + "[ID "@ + text::decimal(id as nat) + " "@ + address(
            addr,
        ) + " "@ + text::hex_bytes(data) + "] "@
    }
}

/// What follows the name and the target of an instruction.
pub open spec fn details(kind: Kind, params: Seq<u8>) -> Seq<char> {
    match kind {
        Kind::Ping => Seq::empty(),
        Kind::Read { addr, len } => "  "@ + address(addr) + " len="@ + text::decimal(len as nat),
        Kind::Write { addr, data } => "  "@ + address(addr) + " data="@ + text::hex_bytes(data),
        Kind::RegWrite { addr, data } => "  "@ + address(addr) + " data="@ + text::hex_bytes(data),
        Kind::Action => Seq::empty(),
        Kind::FactoryReset => Seq::empty(),
        Kind::Reboot => Seq::empty(),
        Kind::SyncRead { addr, len, ids } => "  "@ + address(addr) + " len="@ + text::decimal(
            len as nat,
        ) + " ids="@ + text::list_of_bytes(ids),
        Kind::SyncWrite { addr, len, entries } => "  "@ + address(addr) + " len="@ + text::decimal(
            len as nat,
        ) + " "@ + sync_items(entries),
        Kind::BulkRead { entries } => "  "@ + bulk_read_items(entries),
        Kind::BulkWrite { entries } => "  "@ + bulk_write_items(entries),
        Kind::Other => "  params="@ + text::hex_bytes(params),
    }
}

/// An instruction: its name in a column of eleven characters, its target and its
/// details.
pub open spec fn instruction(p: Packet, name: Seq<char>, kind: Kind) -> Seq<char> {
    text::pad_right(name, 11) + " → "@ + target(p.id) + details(kind, p.params)
}

/// The error of a status: `ok` for none, and otherwise the byte and the names that
/// it has.
pub open spec fn error_text(colored: bool, error: u8, flags: Seq<Seq<char>>) -> Seq<char> {
    if error == 0 {
        "ok"@
    } else {
        let names = if flags.len() == 0 {
            Seq::empty()
        } else {
            "("@ + text::join(flags, "|"@) + ")"@
        };
        paint(colored, color::red(), "err=0x"@ + text::hex(error as nat, 2) + names)
    }
}

/// A status: its error and its data.
pub open spec fn status(
    colored: bool,
    error: u8,
    flags: Seq<Seq<char>>,
    data: Seq<u8>,
) -> Seq<char> {
    "STATUS       "@ + error_text(colored, error, flags) + "  data="@ + text::hex_bytes(data)
}

/// A packet of unknown meaning.
pub open spec fn unknown(p: Packet) -> Seq<char> {
    "?            id="@ + text::decimal(p.id as nat) + " byte=0x"@ + text::hex(
        p.instr_or_err as nat,
        2,
    ) + " params="@ + text::hex_bytes(p.params)
}

/// The raw bytes of a frame.
pub open spec fn dump(colored: bool, raw: Seq<u8>) -> Seq<char> {
    paint(colored, color::dim(), "["@ + text::hex_bytes(raw) + "]"@)
}

/// Who sends.
pub open spec fn sender(colored: bool, m: Meaning) -> Seq<char> {
    match m {
        Meaning::Master { .. } => paint(colored, color::cyan(), "MASTER →"@),
        Meaning::Slave { packet, .. } => paint(
            colored,
            color::green(),
            device(packet.id) + " ←"@,
        ),
        Meaning::Unknown { .. } => paint(colored, color::yellow(), "UNKNOWN "@),
    }
}

/// What is said.
pub open spec fn body(colored: bool, m: Meaning) -> Seq<char> {
    match m {
        Meaning::Master { packet, name, kind } => instruction(packet, name, kind),
        Meaning::Slave { error, error_flags, data, .. } => status(
            colored,
            error,
            error_flags,
            data,
        ),
        Meaning::Unknown { packet } => unknown(packet),
    }
}

/// The line without the raw bytes: the time, who sends, the protocol version and
/// what is said.
pub open spec fn message(colored: bool, ts: Seq<char>, m: Meaning) -> Seq<char> {
    let version = version_text(meaning::packet_of(m).version);
    "["@ + ts + "] "@ + sender(colored, m) + " "@ + paint(colored, color::dim(), version) + "  "@
        + body(colored, m)
}

/// The whole line, with or without the raw bytes at its end.
pub open spec fn line(colored: bool, with_dump: bool, ts: Seq<char>, m: Meaning) -> Seq<char> {
    if with_dump {
        message(colored, ts, m) + "  "@ + dump(colored, meaning::packet_of(m).raw)
    } else {
        message(colored, ts, m)
    }
}

} // verus!
