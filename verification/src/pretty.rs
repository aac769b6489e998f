//! Writes classified packets as text, one line each, with color if wanted.

use vstd::prelude::*;

use crate::color::{self, bold_cyan, bold_green, bold_red, bold_yellow, dimmed};
use crate::decode::{self, Decoded, InstrKind, Instruction, Status};
use crate::line;
use crate::meaning::BROADCAST_ID;
use crate::parser::{ProtocolVersion, RawPacket};
use crate::text::{
    self, hexs, push_decimal, push_decimal3, push_hex2, push_hex4, push_joined, push_list_of_bytes,
    push_padded_right,
};

verus! {

/// How lines are written.
pub struct Formatter {
    /// Whether to use color.
    pub color: bool,
    /// Whether to show the raw bytes of each frame.
    pub hex: bool,
}

/// Appends an address.
fn push_address(out: &mut String, addr: u16)
    ensures
        final(out)@ == old(out)@ + line::address(addr),
{
    out.append("addr=0x");
    push_hex4(out, addr);
    assert(out@ =~= old(out)@ + line::address(addr));
}

/// Appends a device in a column of three digits.
fn push_device(out: &mut String, id: u8)
    ensures
        final(out)@ == old(out)@ + line::device(id),
{
    out.append("ID ");
    push_decimal3(out, id);
    assert(out@ =~= old(out)@ + line::device(id));
}

/// Appends the entries of a sync write.
fn push_sync_items(out: &mut String, entries: &Vec<(u8, Vec<u8>)>)
    ensures
        final(out)@ == old(out)@ + line::sync_items(decode::sync_view(entries@)),
{
    let ghost all = decode::sync_view(entries@);
    let mut i: usize = 0;
    assert(out@ =~= old(out)@ + line::sync_items(all.take(0)));
    while i < entries.len()
        invariant
            i <= entries@.len(),
            all == decode::sync_view(entries@),
            out@ == old(out)@ + line::sync_items(all.take(i as int)),
        decreases entries@.len() - i,
    {
        let ghost before = line::sync_items(all.take(i as int));
        let entry = &entries[i];
        out.append("[");
        push_decimal(out, entry.0 as u16);
        out.append("=");
        let data = hexs(entry.1.as_slice());
        out.append(data.as_str());
        out.append("] ");
        proof {
            assert(all.take(i + 1).drop_last() =~= all.take(i as int));
            assert(all.take(i + 1).last() == (entry.0, entry.1@));
            assert(out@ =~= old(out)@ + line::sync_items(all.take(i + 1)));
        }
        i = i + 1;
    }
    assert(all.take(i as int) =~= all);
}

/// Appends the entries of a bulk read.
fn push_bulk_read_items(out: &mut String, entries: &Vec<(u8, u16, u16)>)
    ensures
        final(out)@ == old(out)@ + line::bulk_read_items(entries@),
{
    let mut i: usize = 0;
    assert(out@ =~= old(out)@ + line::bulk_read_items(entries@.take(0)));
    while i < entries.len()
        invariant
            i <= entries@.len(),
            out@ == old(out)@ + line::bulk_read_items(entries@.take(i as int)),
        decreases entries@.len() - i,
    {
        let entry = &entries[i];
        out.append("[ID ");
        push_decimal(out, entry.0 as u16);
        out.append(" ");
        push_address(out, entry.1);
        out.append(" len=");
        push_decimal(out, entry.2);
        out.append("] ");
        proof {
            assert(entries@.take(i + 1).drop_last() =~= entries@.take(i as int));
            assert(out@ =~= old(out)@ + line::bulk_read_items(entries@.take(i + 1)));
        }
        i = i + 1;
    }
    assert(entries@.take(i as int) =~= entries@);
}

/// Appends the entries of a bulk write.
fn push_bulk_write_items(out: &mut String, entries: &Vec<(u8, u16, Vec<u8>)>)
    ensures
        final(out)@ == old(out)@ + line::bulk_write_items(decode::bulk_view(entries@)),
{
    let ghost all = decode::bulk_view(entries@);
    let mut i: usize = 0;
    assert(out@ =~= old(out)@ + line::bulk_write_items(all.take(0)));
    while i < entries.len()
        invariant
            i <= entries@.len(),
            all == decode::bulk_view(entries@),
            out@ == old(out)@ + line::bulk_write_items(all.take(i as int)),
        decreases entries@.len() - i,
    {
        let entry = &entries[i];
        out.append("[ID ");
        push_decimal(out, entry.0 as u16);
        out.append(" ");
        push_address(out, entry.1);
        out.append(" ");
        let data = hexs(entry.2.as_slice());
        out.append(data.as_str());
        out.append("] ");
        proof {
            assert(all.take(i + 1).drop_last() =~= all.take(i as int));
            assert(all.take(i + 1).last() == (entry.0, entry.1, entry.2@));
            assert(out@ =~= old(out)@ + line::bulk_write_items(all.take(i + 1)));
        }
        i = i + 1;
    }
    assert(all.take(i as int) =~= all);
}

/// Appends what follows the name and the target of an instruction.
fn push_details(out: &mut String, kind: &InstrKind, params: &Vec<u8>)
    ensures
        final(out)@ == old(out)@ + line::details(kind@, params@),
{
    match kind {
        InstrKind::Ping | InstrKind::Action | InstrKind::FactoryReset | InstrKind::Reboot => {},
        InstrKind::Read { addr, len } => {
            out.append("  ");
            push_address(out, *addr);
            out.append(" len=");
            push_decimal(out, *len);
        },
        InstrKind::Write { addr, data } | InstrKind::RegWrite { addr, data } => {
            out.append("  ");
            push_address(out, *addr);
            out.append(" data=");
            let s = hexs(data.as_slice());
            out.append(s.as_str());
        },
        InstrKind::SyncRead { addr, len, ids } => {
            out.append("  ");
            push_address(out, *addr);
            out.append(" len=");
            push_decimal(out, *len);
            out.append(" ids=");
            push_list_of_bytes(out, ids);
        },
        InstrKind::SyncWrite { addr, len, entries } => {
            out.append("  ");
            push_address(out, *addr);
            out.append(" len=");
            push_decimal(out, *len);
            out.append(" ");
            push_sync_items(out, entries);
        },
        InstrKind::BulkRead { entries } => {
            out.append("  ");
            push_bulk_read_items(out, entries);
        },
        InstrKind::BulkWrite { entries } => {
            out.append("  ");
            push_bulk_write_items(out, entries);
        },
        InstrKind::Other => {
            out.append("  params=");
            let s = hexs(params.as_slice());
            out.append(s.as_str());
        },
    }
    assert(out@ =~= old(out)@ + line::details(kind@, params@));
}

impl Formatter {
    /// The line for a classified packet, headed by the given time.
    pub fn format(&self, ts: &str, d: &Decoded) -> (out: String)
        ensures
            out@ == line::line(self.color, self.hex, ts@, d@),
    {
        let mut out = String::new();
        let (tag, body, raw): (String, String, &RawPacket) = match d {
            Decoded::Master(i) => (self.style_master("MASTER →"), self.format_instr(i), &i.raw),
            Decoded::Slave(s) => {
                let mut who = String::new();
                push_device(&mut who, s.raw.id);
                who.append(" ←");
                assert(who@ =~= line::device(s.raw.id) + " ←"@);
                (self.style_slave(who.as_str()), self.format_status(s), &s.raw)
            },
            Decoded::Unknown(p) => (self.style_unknown("UNKNOWN "), self.format_unknown(p), p),
        };
        out.append("[");
        out.append(ts);
        out.append("] ");
        out.append(tag.as_str());
        out.append(" ");
        let version = self.proto_tag(raw.version);
        out.append(version.as_str());
        out.append("  ");
        out.append(body.as_str());
        assert(out@ =~= line::message(self.color, ts@, d@));
        if self.hex {
            out.append("  ");
            let dump = self.hexdump(raw.raw.as_slice());
            out.append(dump.as_str());
        }
        out
    }

    fn proto_tag(&self, v: ProtocolVersion) -> (out: String)
        ensures
            out@ == line::paint(self.color, color::dim(), line::version_text(v)),
    {
        let s: &str = match v {
            ProtocolVersion::V1 => "v1",
            ProtocolVersion::V2 => "v2",
        };
        if self.color {
            dimmed(s)
        } else {
            s.to_owned()
        }
    }

    fn style_master(&self, s: &str) -> (out: String)
        ensures
            out@ == line::paint(self.color, color::cyan(), s@),
    {
        if self.color {
            bold_cyan(s)
        } else {
            s.to_owned()
        }
    }

    fn style_slave(&self, s: &str) -> (out: String)
        ensures
            out@ == line::paint(self.color, color::green(), s@),
    {
        if self.color {
            bold_green(s)
        } else {
            s.to_owned()
        }
    }

    fn style_unknown(&self, s: &str) -> (out: String)
        ensures
            out@ == line::paint(self.color, color::yellow(), s@),
    {
        if self.color {
            bold_yellow(s)
        } else {
            s.to_owned()
        }
    }

    fn style_err(&self, s: &str) -> (out: String)
        ensures
            out@ == line::paint(self.color, color::red(), s@),
    {
        if self.color {
            bold_red(s)
        } else {
            s.to_owned()
        }
    }

    fn format_instr(&self, i: &Instruction) -> (out: String)
        ensures
            out@ == line::instruction(i.raw@, i.name@, i.kind@),
    {
        let mut out = String::new();
        push_padded_right(&mut out, i.name, 11);
        out.append(" → ");
        if i.raw.id == BROADCAST_ID {
            out.append("0xFE");
        } else {
            push_device(&mut out, i.raw.id);
        }
        push_details(&mut out, &i.kind, &i.raw.params);
        assert(out@ =~= line::instruction(i.raw@, i.name@, i.kind@));
        out
    }

    fn format_status(&self, s: &Status) -> (out: String)
        ensures
            out@ == line::status(self.color, s.error, text::texts(s.error_flags@), s.data@),
    {
        let err = if s.error == 0 {
            "ok".to_owned()
        } else {
            let mut e = String::new();
            e.append("err=0x");
            push_hex2(&mut e, s.error);
            if s.error_flags.len() > 0 {
                e.append("(");
                push_joined(&mut e, &s.error_flags, "|");
                e.append(")");
            }
            let ghost flags = text::texts(s.error_flags@);
            let ghost names = if flags.len() == 0 {
                Seq::empty()
            } else {
                "("@ + text::join(flags, "|"@) + ")"@
            };
            assert(e@ =~= "err=0x"@ + text::hex(s.error as nat, 2) + names);
            self.style_err(e.as_str())
        };
        let mut out = String::new();
        out.append("STATUS       ");
        out.append(err.as_str());
        out.append("  data=");
        let data = hexs(s.data.as_slice());
        out.append(data.as_str());
        assert(out@ =~= line::status(
            self.color,
            s.error,
            text::texts(s.error_flags@),
            s.data@,
        ));
        out
    }

    fn format_unknown(&self, p: &RawPacket) -> (out: String)
        ensures
            out@ == line::unknown(p@),
    {
        let mut out = String::new();
        out.append("?            id=");
        push_decimal(&mut out, p.id as u16);
        out.append(" byte=0x");
        push_hex2(&mut out, p.instr_or_err);
        out.append(" params=");
        let params = hexs(p.params.as_slice());
        out.append(params.as_str());
        assert(out@ =~= line::unknown(p@));
        out
    }

    fn hexdump(&self, b: &[u8]) -> (out: String)
        ensures
            out@ == line::dump(self.color, b@),
    {
        let mut s = String::new();
        s.append("[");
        let bytes = hexs(b);
        s.append(bytes.as_str());
        s.append("]");
        assert(s@ =~= "["@ + text::hex_bytes(b@) + "]"@);
        if self.color {
            dimmed(s.as_str())
        } else {
            s
        }
    }
}

} // verus!
