//! Interprets framed packets as instructions of the master or status replies of
//! the slaves, with named instructions and error flags.

use std::collections::HashMap;
use std::time::{Duration, Instant};

use vstd::prelude::*;

use crate::bytes::{copy_range, join_le};
use crate::clock;
use crate::meaning::{self, Kind, Meaning, BROADCAST_ID, V2_STATUS};
use crate::parser::{ProtocolVersion, RawPacket};
use crate::text;

verus! {

broadcast use vstd::std_specs::hash::group_hash_axioms;

/// A classified packet.
#[derive(Debug, Clone)]
pub enum Decoded {
    Master(Instruction),
    Slave(Status),
    /// Could not be classified: v1 is ambiguous where the state of the bus is not
    /// known, as with the first packets after startup.
    Unknown(RawPacket),
}

/// An instruction of the master.
#[derive(Debug, Clone)]
pub struct Instruction {
    pub raw: RawPacket,
    pub name: &'static str,
    pub kind: InstrKind,
}

/// What an instruction asks for.
#[derive(Debug, Clone)]
pub enum InstrKind {
    Ping,
    Read { addr: u16, len: u16 },
    Write { addr: u16, data: Vec<u8> },
    RegWrite { addr: u16, data: Vec<u8> },
    Action,
    FactoryReset,
    Reboot,
    SyncRead { addr: u16, len: u16, ids: Vec<u8> },
    SyncWrite { addr: u16, len: u16, entries: Vec<(u8, Vec<u8>)> },
    BulkRead { entries: Vec<(u8, u16, u16)> },
    BulkWrite { entries: Vec<(u8, u16, Vec<u8>)> },
    Other,
}

/// A status reply of a slave.
#[derive(Debug, Clone)]
pub struct Status {
    pub raw: RawPacket,
    pub error: u8,
    pub error_flags: Vec<&'static str>,
    /// The parameters without the error byte of v2.
    pub data: Vec<u8>,
}

/// The entries of a sync write, with the data as sequences.
pub open spec fn sync_view(entries: Seq<(u8, Vec<u8>)>) -> Seq<(u8, Seq<u8>)> {
    Seq::new(entries.len(), |i: int| (entries[i].0, entries[i].1@))
}

/// The entries of a bulk write, with the data as sequences.
pub open spec fn bulk_view(entries: Seq<(u8, u16, Vec<u8>)>) -> Seq<(u8, u16, Seq<u8>)> {
    Seq::new(entries.len(), |i: int| (entries[i].0, entries[i].1, entries[i].2@))
}

impl View for InstrKind {
    type V = Kind;

    open spec fn view(&self) -> Kind {
        match *self {
            InstrKind::Ping => Kind::Ping,
            InstrKind::Read { addr, len } => Kind::Read { addr, len },
            InstrKind::Write { addr, data } => Kind::Write { addr, data: data@ },
            InstrKind::RegWrite { addr, data } => Kind::RegWrite { addr, data: data@ },
            InstrKind::Action => Kind::Action,
            InstrKind::FactoryReset => Kind::FactoryReset,
            InstrKind::Reboot => Kind::Reboot,
            InstrKind::SyncRead { addr, len, ids } => Kind::SyncRead { addr, len, ids: ids@ },
            InstrKind::SyncWrite { addr, len, entries } => Kind::SyncWrite {
                addr,
                len,
                entries: sync_view(entries@),
            },
            InstrKind::BulkRead { entries } => Kind::BulkRead { entries: entries@ },
            InstrKind::BulkWrite { entries } => Kind::BulkWrite { entries: bulk_view(entries@) },
            InstrKind::Other => Kind::Other,
        }
    }
}

impl View for Instruction {
    type V = Meaning;

    open spec fn view(&self) -> Meaning {
        Meaning::Master { packet: self.raw@, name: self.name@, kind: self.kind@ }
    }
}

impl View for Status {
    type V = Meaning;

    open spec fn view(&self) -> Meaning {
        Meaning::Slave {
            packet: self.raw@,
            error: self.error,
            error_flags: text::texts(self.error_flags@),
            data: self.data@,
        }
    }
}

impl View for Decoded {
    type V = Meaning;

    open spec fn view(&self) -> Meaning {
        match *self {
            Decoded::Master(i) => i@,
            Decoded::Slave(s) => s@,
            Decoded::Unknown(p) => Meaning::Unknown { packet: p@ },
        }
    }
}

/// The text of an optional name.
pub open spec fn text_of(name: Option<&'static str>) -> Option<Seq<char>> {
    match name {
        Some(n) => Some(n@),
        None => None,
    }
}

/// The name of a v1 instruction byte.
pub fn v1_instr_name(b: u8) -> (name: Option<&'static str>)
    ensures
        text_of(name) == meaning::v1_name(b),
{
    match b {
        0x01 => Some("PING"),
        0x02 => Some("READ"),
        0x03 => Some("WRITE"),
        0x04 => Some("REG_WRITE"),
        0x05 => Some("ACTION"),
        0x06 => Some("FACTORY_RESET"),
        0x08 => Some("REBOOT"),
        0x83 => Some("SYNC_WRITE"),
        0x92 => Some("BULK_READ"),
        _ => None,
    }
}

/// The name of a v2 instruction byte.
pub fn v2_instr_name(b: u8) -> (name: Option<&'static str>)
    ensures
        text_of(name) == meaning::v2_name(b),
{
    match b {
        0x01 => Some("PING"),
        0x02 => Some("READ"),
        0x03 => Some("WRITE"),
        0x04 => Some("REG_WRITE"),
        0x05 => Some("ACTION"),
        0x06 => Some("FACTORY_RESET"),
        0x08 => Some("REBOOT"),
        0x10 => Some("CLEAR"),
        0x20 => Some("CONTROL_TABLE_BACKUP"),
        0x55 => Some("STATUS"),
        0x82 => Some("SYNC_READ"),
        0x83 => Some("SYNC_WRITE"),
        0x8A => Some("FAST_SYNC_READ"),
        0x92 => Some("BULK_READ"),
        0x93 => Some("BULK_WRITE"),
        0x9A => Some("FAST_BULK_READ"),
        _ => None,
    }
}

/// Adds a name to a list if the bit is set.
fn push_flag(out: &mut Vec<&'static str>, b: u8, bit: u8, name: &'static str)
    ensures
        text::texts(final(out)@) == text::texts(old(out)@) + meaning::flag(b, bit, name@),
{
    if b & bit != 0 {
        out.push(name);
    }
    assert(text::texts(out@) =~= text::texts(old(out)@) + meaning::flag(b, bit, name@));
}

/// The names of the bits that are set in a v1 error byte.
pub fn v1_error_flags(b: u8) -> (out: Vec<&'static str>)
    ensures
        text::texts(out@) == meaning::v1_flags(b),
{
    let mut out: Vec<&'static str> = Vec::new();
    push_flag(&mut out, b, 0x01, "INPUT_VOLTAGE");
    push_flag(&mut out, b, 0x02, "ANGLE_LIMIT");
    push_flag(&mut out, b, 0x04, "OVERHEATING");
    push_flag(&mut out, b, 0x08, "RANGE");
    push_flag(&mut out, b, 0x10, "CHECKSUM");
    push_flag(&mut out, b, 0x20, "OVERLOAD");
    push_flag(&mut out, b, 0x40, "INSTRUCTION");
    assert(text::texts(out@) =~= meaning::v1_flags(b));
    out
}

/// The names of a v2 error byte: the alert latch and the result code.
pub fn v2_error_flags(b: u8) -> (out: Vec<&'static str>)
    ensures
        text::texts(out@) == meaning::v2_flags(b),
{
    let mut out: Vec<&'static str> = Vec::new();
    push_flag(&mut out, b, 0x80, "HW_ALERT");
    let code: u8 = b & 0x7F;
    if code != 0 {
        let name: &'static str = match code {
            0x01 => "RESULT_FAIL",
            0x02 => "INSTRUCTION_ERR",
            0x03 => "CRC_ERR",
            0x04 => "DATA_RANGE",
            0x05 => "DATA_LENGTH",
            0x06 => "DATA_LIMIT",
            0x07 => "ACCESS",
            _ => "UNKNOWN_ERR",
        };
        out.push(name);
    }
    assert(text::texts(out@) =~= meaning::v2_flags(b));
    out
}

/// Cuts the parameters from position `from` on into the entries of a sync write
/// with `len` data bytes each.
fn split_sync_entries(params: &Vec<u8>, from: usize, len: u16) -> (entries: Vec<(u8, Vec<u8>)>)
    requires
        from <= params@.len(),
    ensures
        sync_view(entries@) == meaning::sync_entries(params@.skip(from as int), len as nat),
{
    let stride: usize = len as usize + 1;
    let ghost body = params@.skip(from as int);
    let mut entries: Vec<(u8, Vec<u8>)> = Vec::new();
    let mut i: usize = from;
    let ghost mut k: int = 0;
    while params.len() - i >= stride
        invariant
            stride == len + 1,
            body == params@.skip(from as int),
            from <= i <= params@.len(),
            k >= 0,
            i - from == k * stride,
            entries@.len() == k,
            forall|j: int|
                0 <= j < k ==> (#[trigger] entries@[j]).0 == body[j * stride] && entries@[j].1@
                    == body.subrange(j * stride + 1, j * stride + stride),
        decreases params@.len() - i,
    {
        let data = copy_range(params, i + 1, i + stride);
        assert(data@ =~= body.subrange(k * stride + 1, k * stride + stride));
        entries.push((params[i], data));
        proof {
            assert((k + 1) * stride == k * stride + stride) by (nonlinear_arith);
            k = k + 1;
        }
        i = i + stride;
    }
    proof {
        vstd::arithmetic::div_mod::lemma_fundamental_div_mod_converse(
            body.len() as int,
            stride as int,
            k,
            body.len() - k * stride,
        );
        assert(sync_view(entries@) =~= meaning::sync_entries(body, len as nat));
    }
    entries
}

/// Cuts the parameters after the first into the entries of a v1 bulk read.
fn split_bulk_read_entries(params: &Vec<u8>) -> (entries: Vec<(u8, u16, u16)>)
    requires
        params@.len() >= 1,
    ensures
        entries@ == meaning::bulk_read_entries(params@.skip(1)),
{
    let ghost body = params@.skip(1);
    let mut entries: Vec<(u8, u16, u16)> = Vec::new();
    let mut i: usize = 1;
    while params.len() - i >= 3
        invariant
            body == params@.skip(1),
            1 <= i <= params@.len(),
            i == 3 * entries@.len() + 1,
            forall|j: int|
                0 <= j < entries@.len() ==> #[trigger] entries@[j] == (
                    body[3 * j + 1],
                    body[3 * j + 2] as u16,
                    body[3 * j] as u16,
                ),
        decreases params@.len() - i,
    {
        let len: u16 = params[i] as u16;
        let id: u8 = params[i + 1];
        let addr: u16 = params[i + 2] as u16;
        entries.push((id, addr, len));
        i = i + 3;
    }
    assert(entries@ =~= meaning::bulk_read_entries(body));
    entries
}

/// Cuts the parameters into the entries of a v2 bulk write.
fn split_bulk_write_entries(params: &Vec<u8>) -> (entries: Vec<(u8, u16, Vec<u8>)>)
    ensures
        bulk_view(entries@) == meaning::bulk_write_entries(params@),
{
    let mut entries: Vec<(u8, u16, Vec<u8>)> = Vec::new();
    let mut i: usize = 0;
    assert(params@.skip(0) =~= params@);
    assert(bulk_view(entries@) + meaning::bulk_write_entries(params@)
        =~= meaning::bulk_write_entries(params@));
    while params.len() - i >= 5
        invariant
            i <= params@.len(),
            bulk_view(entries@) + meaning::bulk_write_entries(params@.skip(i as int))
                == meaning::bulk_write_entries(params@),
        ensures
            i <= params@.len(),
            bulk_view(entries@) == meaning::bulk_write_entries(params@),
        decreases params@.len() - i,
    {
        let ghost rest = params@.skip(i as int);
        let ghost before = bulk_view(entries@);
        let id: u8 = params[i];
        let addr: u16 = join_le(params[i + 1], params[i + 2]);
        let len: usize = join_le(params[i + 3], params[i + 4]) as usize;
        if params.len() - i - 5 < len {
            assert(before + Seq::<(u8, u16, Seq<u8>)>::empty() =~= before);
            break;
        }
        let end: usize = i + 5 + len;
        let data = copy_range(params, i + 5, end);
        entries.push((id, addr, data));
        proof {
            assert(data@ =~= rest.subrange(5, 5 + len));
            assert(rest.skip(5 + len) =~= params@.skip(end as int));
            let entry = (id, addr, rest.subrange(5, 5 + len));
            assert(bulk_view(entries@) =~= before.push(entry));
            let later = meaning::bulk_write_entries(rest.skip(5 + len));
            assert(before.push(entry) + later =~= before + (seq![entry] + later));
        }
        i = end;
    }
    entries
}

/// Reads a v1 packet as an instruction.
pub fn decode_v1_instruction(pkt: RawPacket) -> (i: Instruction)
    ensures
        i@ == meaning::v1_master(pkt@),
        i.raw == pkt,
{
    let name: &'static str = match v1_instr_name(pkt.instr_or_err) {
        Some(n) => n,
        None => "UNKNOWN",
    };
    let n: usize = pkt.params.len();
    let kind = match pkt.instr_or_err {
        0x01 => InstrKind::Ping,
        0x02 if n >= 2 => InstrKind::Read {
            addr: pkt.params[0] as u16,
            len: pkt.params[1] as u16,
        },
        0x03 if n >= 1 => InstrKind::Write {
            addr: pkt.params[0] as u16,
            data: copy_range(&pkt.params, 1, n),
        },
        0x04 if n >= 1 => InstrKind::RegWrite {
            addr: pkt.params[0] as u16,
            data: copy_range(&pkt.params, 1, n),
        },
        0x05 => InstrKind::Action,
        0x06 => InstrKind::FactoryReset,
        0x08 => InstrKind::Reboot,
        0x83 if n >= 2 => {
            let addr: u16 = pkt.params[0] as u16;
            let len: u16 = pkt.params[1] as u16;
            let entries = split_sync_entries(&pkt.params, 2, len);
            InstrKind::SyncWrite { addr, len, entries }
        },
        0x92 if n >= 1 => InstrKind::BulkRead { entries: split_bulk_read_entries(&pkt.params) },
        _ => InstrKind::Other,
    };
    assert(kind@ =~= meaning::v1_kind(pkt.instr_or_err, pkt.params@));
    Instruction { raw: pkt, name, kind }
}

/// Reads a v2 packet as an instruction.
pub fn decode_v2_instruction(pkt: RawPacket) -> (i: Instruction)
    ensures
        i@ == meaning::v2_master(pkt@),
        i.raw == pkt,
{
    let name: &'static str = match v2_instr_name(pkt.instr_or_err) {
        Some(n) => n,
        None => "UNKNOWN",
    };
    let n: usize = pkt.params.len();
    let kind = match pkt.instr_or_err {
        0x01 => InstrKind::Ping,
        0x02 if n >= 4 => InstrKind::Read {
            addr: join_le(pkt.params[0], pkt.params[1]),
            len: join_le(pkt.params[2], pkt.params[3]),
        },
        0x03 if n >= 2 => InstrKind::Write {
            addr: join_le(pkt.params[0], pkt.params[1]),
            data: copy_range(&pkt.params, 2, n),
        },
        0x04 if n >= 2 => InstrKind::RegWrite {
            addr: join_le(pkt.params[0], pkt.params[1]),
            data: copy_range(&pkt.params, 2, n),
        },
        0x05 => InstrKind::Action,
        0x06 => InstrKind::FactoryReset,
        0x08 => InstrKind::Reboot,
        0x82 if n >= 4 => InstrKind::SyncRead {
            addr: join_le(pkt.params[0], pkt.params[1]),
            len: join_le(pkt.params[2], pkt.params[3]),
            ids: copy_range(&pkt.params, 4, n),
        },
        0x83 if n >= 4 => {
            let addr: u16 = join_le(pkt.params[0], pkt.params[1]);
            let len: u16 = join_le(pkt.params[2], pkt.params[3]);
            let entries = split_sync_entries(&pkt.params, 4, len);
            InstrKind::SyncWrite { addr, len, entries }
        },
        0x93 if n >= 1 => InstrKind::BulkWrite { entries: split_bulk_write_entries(&pkt.params) },
        _ => InstrKind::Other,
    };
    assert(kind@ =~= meaning::v2_kind(pkt.instr_or_err, pkt.params@));
    Instruction { raw: pkt, name, kind }
}

/// Tells instructions from replies. For v1 it remembers to which IDs the master
/// sent an instruction, so that the next packet from such an ID is seen to be the
/// reply.
///
/// An entry is forgotten after `reply_timeout`. In v1 a PING to an ID and a status
/// of that ID with error 0x01 are the same bytes: without the timeout, a master
/// that scans an absent ID again would seem to get a reply with INPUT_VOLTAGE.
#[derive(Debug)]
pub struct Classifier {
    /// When the last instruction went to each ID, in nanoseconds after `start`.
    v1_pending: HashMap<u8, u128>,
    /// In nanoseconds.
    reply_timeout: u128,
    start: Instant,
}

impl Default for Classifier {
    /// A classifier that waits 50 ms for a reply.
    fn default() -> (c: Self)
        ensures
            call_ensures(Instant::now, (), c.start()),
            c.pending() == Map::<u8, u128>::empty(),
            c.reply_timeout() == 50_000_000,
    {
        Self::new(Duration::from_millis(50))
    }
}

impl Classifier {
    /// The IDs from which a reply is expected, each with the time of the
    /// instruction.
    pub closed spec fn pending(self) -> Map<u8, u128> {
        self.v1_pending@
    }

    /// How long a reply is waited for, in nanoseconds.
    pub closed spec fn reply_timeout(self) -> u128 {
        self.reply_timeout
    }

    /// The reading of the clock from which all times count.
    pub closed spec fn start(self) -> Instant {
        self.start
    }

    /// A classifier that expects no reply, and whose times count from now.
    pub fn new(reply_timeout: Duration) -> (c: Self)
        ensures
            call_ensures(Instant::now, (), c.start()),
            c.pending() == Map::<u8, u128>::empty(),
            c.reply_timeout() == clock::duration_nanos(reply_timeout),
    {
        Self {
            v1_pending: HashMap::new(),
            reply_timeout: reply_timeout.as_nanos(),
            start: Instant::now(),
        }
    }

    /// Whether no reply is expected from any ID.
    pub fn expects_no_reply(&self) -> (none: bool)
        ensures
            none == (self.pending() == Map::<u8, u128>::empty()),
    {
        let none = self.v1_pending.is_empty();
        assert(none ==> self.v1_pending@ =~= Map::<u8, u128>::empty());
        none
    }

    /// Classifies a packet that comes now.
    ///
    /// The packet is classified as [`Classifier::classify_at`] does at the time that
    /// [`Instant::elapsed`] gives for the start of this classifier.
    pub fn classify(&mut self, pkt: RawPacket) -> (d: Decoded)
        ensures
            exists|span: Duration|
                call_ensures(Instant::elapsed, (&old(self).start(),), span) && (
                    final(self).pending(),
                    d@,
                ) == #[trigger] meaning::step(
                    old(self).pending(),
                    old(self).reply_timeout(),
                    clock::duration_nanos(span),
                    pkt@,
                ),
            final(self).reply_timeout() == old(self).reply_timeout(),
            final(self).start() == old(self).start(),
    {
        let now: u128 = self.start.elapsed().as_nanos();
        self.classify_at(pkt, now)
    }

    /// Classifies a packet that comes at the given time, in nanoseconds after the
    /// start of this classifier.
    pub fn classify_at(&mut self, pkt: RawPacket, now: u128) -> (d: Decoded)
        ensures
            (final(self).pending(), d@) == meaning::step(
                old(self).pending(),
                old(self).reply_timeout(),
                now,
                pkt@,
            ),
            final(self).reply_timeout() == old(self).reply_timeout(),
            final(self).start() == old(self).start(),
    {
        match pkt.version {
            ProtocolVersion::V2 => self.classify_v2(pkt),
            ProtocolVersion::V1 => self.classify_v1(pkt, now),
        }
    }

    /// Forgets the instructions that waited too long for a reply.
    fn expire_pending(&mut self, now: u128)
        ensures
            final(self).v1_pending@ == meaning::live(
                old(self).v1_pending@,
                old(self).reply_timeout,
                now,
            ),
            final(self).reply_timeout == old(self).reply_timeout,
            final(self).start == old(self).start,
    {
        let timeout: u128 = self.reply_timeout;
        let mut expired: Vec<u8> = Vec::new();
        let ghost all = self.v1_pending@;
        for entry in it: self.v1_pending.iter()
            invariant
                all == self.v1_pending@,
                timeout == self.reply_timeout,
                self.start == old(self).start,
                forall|k: int|
                    0 <= k < it.index() && meaning::elapsed(now, *(#[trigger] it.seq()[k]).1)
                        >= timeout ==> expired@.contains(*it.seq()[k].0),
                forall|j: int|
                    0 <= j < expired@.len() ==> all.contains_key(#[trigger] expired@[j])
                        && meaning::elapsed(now, all[expired@[j]]) >= timeout,
        {
            let age: u128 = now.saturating_sub(*entry.1);
            let ghost before = expired@;
            if age >= timeout {
                expired.push(*entry.0);
            }
            proof {
                assert(all.contains_key(*entry.0) && all[*entry.0] == *entry.1);
                assert forall|id: u8| before.contains(id) implies expired@.contains(id) by {
                    let j = choose|j: int| 0 <= j < before.len() && before[j] == id;
                    assert(expired@[j] == id);
                }
                if age >= timeout {
                    assert(expired@[before.len() as int] == *entry.0);
                }
            }
        }
        proof {
            assert forall|id: u8| all.contains_key(id) && meaning::elapsed(now, all[id]) >= timeout
                implies expired@.contains(id) by {
                let walk = vstd::std_specs::hash::spec_hash_map_iter(&self.v1_pending);
                let pairs = vstd::std_specs::iter::IteratorSpec::remaining(&walk);
                assert(pairs.contains((&id, &all[id])));
            }
        }
        let mut i: usize = 0;
        while i < expired.len()
            invariant
                i <= expired@.len(),
                timeout == self.reply_timeout,
                self.start == old(self).start,
                forall|id: u8| #[trigger]
                    self.v1_pending@.contains_key(id) <==> all.contains_key(id)
                        && !expired@.take(i as int).contains(id),
                forall|id: u8| #[trigger]
                    self.v1_pending@.contains_key(id) ==> self.v1_pending@[id] == all[id],
            decreases expired@.len() - i,
        {
            let _ = self.v1_pending.remove(&expired[i]);
            proof {
                let seen = expired@.take(i as int);
                let next = expired@.take(i + 1);
                assert(next =~= seen.push(expired@[i as int]));
                assert(next[i as int] == expired@[i as int]);
                assert forall|id: u8| seen.contains(id) implies next.contains(id) by {
                    let j = choose|j: int| 0 <= j < seen.len() && seen[j] == id;
                    assert(next[j] == id);
                }
            }
            i = i + 1;
        }
        proof {
            assert(expired@.take(i as int) =~= expired@);
            assert(self.v1_pending@ =~= meaning::live(all, timeout, now));
        }
    }

    /// Classifies a v2 packet: status packets have their own instruction byte.
    fn classify_v2(&mut self, pkt: RawPacket) -> (d: Decoded)
        ensures
            d@ == meaning::v2_meaning(pkt@),
            *final(self) == *old(self),
    {
        if pkt.instr_or_err == V2_STATUS {
            let n: usize = pkt.params.len();
            let (error, data): (u8, Vec<u8>) = if n == 0 {
                (0, Vec::new())
            } else {
                (pkt.params[0], copy_range(&pkt.params, 1, n))
            };
            let s = Status { error_flags: v2_error_flags(error), error, data, raw: pkt };
            assert(s@ =~= meaning::v2_slave(pkt@));
            Decoded::Slave(s)
        } else {
            Decoded::Master(decode_v2_instruction(pkt))
        }
    }

    /// Classifies a v1 packet by what is waited for.
    fn classify_v1(&mut self, pkt: RawPacket, now: u128) -> (d: Decoded)
        requires
            pkt.version == ProtocolVersion::V1,
        ensures
            (final(self).v1_pending@, d@) == meaning::step(
                old(self).v1_pending@,
                old(self).reply_timeout,
                now,
                pkt@,
            ),
            final(self).reply_timeout == old(self).reply_timeout,
            final(self).start == old(self).start,
    {
        self.expire_pending(now);

        // No slave has the broadcast ID, so such a packet comes from the master.
        if pkt.id == BROADCAST_ID {
            self.v1_pending.clear();
            return Decoded::Master(decode_v1_instruction(pkt));
        }
        let known_instr = v1_instr_name(pkt.instr_or_err).is_some();
        if self.v1_pending.contains_key(&pkt.id) {
            // The master sent an instruction to this ID just before: this is the reply.
            let _ = self.v1_pending.remove(&pkt.id);
            let n: usize = pkt.params.len();
            let s = Status {
                error_flags: v1_error_flags(pkt.instr_or_err),
                error: pkt.instr_or_err,
                data: copy_range(&pkt.params, 0, n),
                raw: pkt,
            };
            assert(s@ =~= meaning::v1_slave(pkt@));
            return Decoded::Slave(s);
        }
        if known_instr {
            let _ = self.v1_pending.insert(pkt.id, now);
            return Decoded::Master(decode_v1_instruction(pkt));
        }
        Decoded::Unknown(pkt)
    }
}

} // verus!
