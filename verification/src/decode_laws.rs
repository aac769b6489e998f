//! Laws of classification: when a packet is the reply to an instruction.

use vstd::prelude::*;

use crate::decode::{self, Decoded, InstrKind, Instruction, Status};
use crate::frame::Packet;
use crate::meaning::{self, Kind, Meaning};
use crate::parser::{ProtocolVersion, RawPacket};
use crate::text;

verus! {

/// A classified packet is still there, whatever it was classified as.
pub proof fn lemma_classifying_keeps_the_packet(
    pending: Map<u8, u128>,
    timeout: u128,
    now: u128,
    p: Packet,
)
    ensures
        meaning::packet_of(meaning::step(pending, timeout, now, p).1) == p,
{
}

/// Protocol v2 is not ambiguous: what a packet means depends neither on what came
/// before nor on the time. It is a status exactly when its instruction byte says
/// so, and otherwise an instruction. It does not change what is waited for.
pub proof fn lemma_v2_needs_no_context(
    pending: Map<u8, u128>,
    timeout: u128,
    now: u128,
    p: Packet,
)
    requires
        p.version == ProtocolVersion::V2,
    ensures
        meaning::step(pending, timeout, now, p) == (pending, meaning::v2_meaning(p)),
        meaning::v2_meaning(p) is Slave <==> p.instr_or_err == 0x55,
        meaning::v2_meaning(p) is Master <==> p.instr_or_err != 0x55,
{
}

/// A v1 broadcast is an instruction whenever it comes, and afterwards no reply is
/// waited for.
pub proof fn lemma_broadcast_is_an_instruction(
    pending: Map<u8, u128>,
    timeout: u128,
    now: u128,
    p: Packet,
)
    requires
        p.version == ProtocolVersion::V1,
        p.id == 0xFE,
    ensures
        meaning::step(pending, timeout, now, p) == (
            Map::<u8, u128>::empty(),
            meaning::v1_master(p),
        ),
{
}

/// The bytes that v1 knows as instructions.
pub open spec fn is_v1_instruction(b: u8) -> bool {
    1 <= b <= 6 || b == 8 || b == 0x83 || b == 0x92
}

/// Whether a v1 packet is the reply to the instruction that its ID was sent is
/// decided by the two times alone: it is if and only if it comes before the time of
/// the instruction plus the timeout. Otherwise it is a fresh instruction, waited for
/// from then on, if its byte is one, and unknown if not.
pub proof fn lemma_reply_by_times(
    pending: Map<u8, u128>,
    timeout: u128,
    sent: u128,
    p: Packet,
    came: u128,
)
    requires
        p.version == ProtocolVersion::V1,
        p.id != 0xFE,
        pending.contains_pair(p.id, sent),
    ensures
        ({
            let (after, m) = meaning::step(pending, timeout, came, p);
            &&& m is Slave <==> 0 < timeout && came < sent + timeout
            &&& m is Master <==> (timeout == 0 || came >= sent + timeout) && is_v1_instruction(
                p.instr_or_err,
            )
            &&& m is Slave ==> m == meaning::v1_slave(p) && !after.contains_key(p.id)
            &&& m is Master ==> m == meaning::v1_master(p) && after.contains_pair(p.id, came)
            &&& m is Unknown ==> !after.contains_key(p.id)
        }),
{
}

/// A v1 packet of an ID that was sent nothing is no reply: it is an instruction,
/// waited for from then on, if its byte is one, and unknown if not.
pub proof fn lemma_no_reply_without_instruction(
    pending: Map<u8, u128>,
    timeout: u128,
    p: Packet,
    came: u128,
)
    requires
        p.version == ProtocolVersion::V1,
        p.id != 0xFE,
        !pending.contains_key(p.id),
    ensures
        ({
            let (after, m) = meaning::step(pending, timeout, came, p);
            &&& m is Master <==> is_v1_instruction(p.instr_or_err)
            &&& m is Unknown <==> !is_v1_instruction(p.instr_or_err)
            &&& m is Master ==> m == meaning::v1_master(p) && after.contains_pair(p.id, came)
            &&& m is Unknown ==> !after.contains_key(p.id)
        }),
{
}

/// A v1 packet of one device changes nothing about the wait for another: that goes
/// on, from the time at which it began, as long as the timeout lasts.
pub proof fn lemma_others_wait_on(
    pending: Map<u8, u128>,
    timeout: u128,
    p: Packet,
    came: u128,
    other: u8,
    since: u128,
)
    requires
        p.version == ProtocolVersion::V1,
        p.id != 0xFE,
        other != p.id,
    ensures
        meaning::step(pending, timeout, came, p).0.contains_pair(other, since)
            <==> pending.contains_pair(other, since) && 0 < timeout && came < since + timeout,
{
}

/// What is waited for after packets that came at the given times.
pub open spec fn replay(
    pending: Map<u8, u128>,
    timeout: u128,
    events: Seq<(Packet, u128)>,
) -> Map<u8, u128>
    decreases events.len(),
{
    if events.len() == 0 {
        pending
    } else {
        let (p, now) = events.last();
        meaning::step(replay(pending, timeout, events.drop_last()), timeout, now, p).0
    }
}

/// Whether a packet has nothing to do with the wait for a reply from `id`: it is of
/// v2, or a v1 packet of another device.
pub open spec fn is_unrelated(p: Packet, id: u8) -> bool {
    p.version == ProtocolVersion::V2 || (p.id != id && p.id != 0xFE)
}

/// The broadcast ID is never waited for, whatever the traffic.
pub proof fn lemma_broadcast_id_is_never_pending(timeout: u128, events: Seq<(Packet, u128)>)
    ensures
        !replay(Map::empty(), timeout, events).contains_key(0xFE),
    decreases events.len(),
{
    if events.len() > 0 {
        lemma_broadcast_id_is_never_pending(timeout, events.drop_last());
    }
}

/// After a v1 packet, everything waited for was sent less than the timeout ago, or
/// with this very packet.
pub proof fn lemma_old_instructions_are_forgotten(
    pending: Map<u8, u128>,
    timeout: u128,
    now: u128,
    p: Packet,
    id: u8,
)
    requires
        p.version == ProtocolVersion::V1,
        meaning::step(pending, timeout, now, p).0.contains_key(id),
    ensures
        ({
            let since = meaning::step(pending, timeout, now, p).0[id];
            (0 < timeout && now < since + timeout) || (id == p.id && since == now)
        }),
{
}

/// Expiring keeps exactly the instructions that are younger than the timeout, with
/// the times that they had: one whose age is the timeout is dropped, and none is
/// added.
pub proof fn lemma_expiring_keeps_the_young(
    pending: Map<u8, u128>,
    timeout: u128,
    now: u128,
    id: u8,
    since: u128,
)
    ensures
        meaning::live(pending, timeout, now).contains_pair(id, since) <==> pending.contains_pair(
            id,
            since,
        ) && 0 < timeout && now < since + timeout,
{
}

/// Expiring twice at the same time does no more than expiring once.
pub proof fn lemma_expiring_twice_changes_nothing(
    pending: Map<u8, u128>,
    timeout: u128,
    now: u128,
)
    ensures
        meaning::live(meaning::live(pending, timeout, now), timeout, now) == meaning::live(
            pending,
            timeout,
            now,
        ),
{
}

/// Unrelated traffic before the timeout leaves the wait for a reply as it is.
proof fn lemma_unrelated_traffic_keeps_waiting(
    pending: Map<u8, u128>,
    timeout: u128,
    id: u8,
    events: Seq<(Packet, u128)>,
)
    requires
        0 < timeout,
        pending.contains_key(id),
        forall|k: int|
            0 <= k < events.len() ==> is_unrelated((#[trigger] events[k]).0, id) && events[k].1
                < pending[id] + timeout,
    ensures
        replay(pending, timeout, events).contains_key(id),
        replay(pending, timeout, events)[id] == pending[id],
    decreases events.len(),
{
    if events.len() > 0 {
        let earlier = events.drop_last();
        assert forall|k: int| 0 <= k < earlier.len() implies is_unrelated(
            (#[trigger] earlier[k]).0,
            id,
        ) && earlier[k].1 < pending[id] + timeout by {
            assert(earlier[k] == events[k]);
        }
        lemma_unrelated_traffic_keeps_waiting(pending, timeout, id, earlier);
        assert(events[events.len() - 1] == events.last());
    }
}

/// Unrelated traffic never makes the wait for a reply from an ID begin anew.
proof fn lemma_unrelated_traffic_never_renews(
    pending: Map<u8, u128>,
    timeout: u128,
    id: u8,
    events: Seq<(Packet, u128)>,
)
    requires
        forall|k: int| 0 <= k < events.len() ==> is_unrelated((#[trigger] events[k]).0, id),
    ensures
        replay(pending, timeout, events).contains_key(id) ==> pending.contains_key(id) && replay(
            pending,
            timeout,
            events,
        )[id] == pending[id],
    decreases events.len(),
{
    if events.len() > 0 {
        let earlier = events.drop_last();
        assert forall|k: int| 0 <= k < earlier.len() implies is_unrelated(
            (#[trigger] earlier[k]).0,
            id,
        ) by {
            assert(earlier[k] == events[k]);
        }
        lemma_unrelated_traffic_never_renews(pending, timeout, id, earlier);
        assert(events[events.len() - 1] == events.last());
    }
}

/// After a v1 instruction to an ID, the next packet from that ID is the status
/// reply if it comes within the timeout, whatever its bytes are and whatever
/// unrelated traffic came between within the timeout. The reply ends the wait.
pub proof fn lemma_reply_within_timeout(
    pending: Map<u8, u128>,
    timeout: u128,
    request: Packet,
    sent: u128,
    between: Seq<(Packet, u128)>,
    reply: Packet,
    came: u128,
)
    requires
        request.version == ProtocolVersion::V1,
        request.id != 0xFE,
        meaning::step(pending, timeout, sent, request).1 is Master,
        forall|k: int|
            0 <= k < between.len() ==> is_unrelated((#[trigger] between[k]).0, request.id)
                && between[k].1 < sent + timeout,
        reply.version == ProtocolVersion::V1,
        reply.id == request.id,
        0 < timeout,
        came < sent + timeout,
    ensures
        ({
            let after_request = meaning::step(pending, timeout, sent, request).0;
            let before_reply = replay(after_request, timeout, between);
            let (after_reply, m) = meaning::step(before_reply, timeout, came, reply);
            &&& m is Slave
            &&& m == meaning::v1_slave(reply)
            &&& !after_reply.contains_key(reply.id)
        }),
{
    let after_request = meaning::step(pending, timeout, sent, request).0;
    assert(after_request.contains_key(request.id) && after_request[request.id] == sent);
    lemma_unrelated_traffic_keeps_waiting(after_request, timeout, request.id, between);
}

/// After a v1 instruction to an ID, a packet to that ID that comes after the
/// timeout is no reply: if its byte is an instruction, it is a fresh instruction,
/// waited for from then on.
pub proof fn lemma_instruction_after_timeout(
    pending: Map<u8, u128>,
    timeout: u128,
    request: Packet,
    sent: u128,
    between: Seq<(Packet, u128)>,
    next: Packet,
    came: u128,
)
    requires
        request.version == ProtocolVersion::V1,
        request.id != 0xFE,
        meaning::step(pending, timeout, sent, request).1 is Master,
        forall|k: int|
            0 <= k < between.len() ==> is_unrelated((#[trigger] between[k]).0, request.id),
        next.version == ProtocolVersion::V1,
        next.id == request.id,
        timeout == 0 || came >= sent + timeout,
    ensures
        ({
            let after_request = meaning::step(pending, timeout, sent, request).0;
            let before_next = replay(after_request, timeout, between);
            let (after_next, m) = meaning::step(before_next, timeout, came, next);
            if is_v1_instruction(next.instr_or_err) {
                &&& m is Master
                &&& m == meaning::v1_master(next)
                &&& after_next.contains_key(next.id)
                &&& after_next[next.id] == came
            } else {
                &&& m == Meaning::Unknown { packet: next }
                &&& !after_next.contains_key(next.id)
            }
        }),
{
    let after_request = meaning::step(pending, timeout, sent, request).0;
    lemma_unrelated_traffic_never_renews(after_request, timeout, request.id, between);
}

/// A status loses nothing of its packet. For v2 the error and the data are together
/// the parameters, in their order; for v1 the error is the byte behind the length,
/// and the data are the parameters.
pub proof fn lemma_status_keeps_everything(p: Packet)
    ensures
        meaning::v1_slave(p) is Slave,
        meaning::v1_slave(p)->Slave_packet == p,
        meaning::v1_slave(p)->error == p.instr_or_err,
        meaning::v1_slave(p)->data == p.params,
        meaning::v1_slave(p)->error_flags == meaning::v1_flags(p.instr_or_err),
        meaning::v2_slave(p) is Slave,
        meaning::v2_slave(p)->Slave_packet == p,
        p.params.len() > 0 ==> seq![meaning::v2_slave(p)->error] + meaning::v2_slave(p)->data
            == p.params,
        p.params.len() == 0 ==> meaning::v2_slave(p)->error == 0 && meaning::v2_slave(
            p,
        )->data.len() == 0,
        meaning::v2_slave(p)->error_flags == meaning::v2_flags(meaning::v2_slave(p)->error),
        p.instr_or_err == 0x55 ==> meaning::v2_meaning(p) == meaning::v2_slave(p),
        p.instr_or_err != 0x55 ==> meaning::v2_meaning(p) == meaning::v2_master(p),
{
    if p.params.len() > 0 {
        assert(seq![p.params[0]] + p.params.skip(1) =~= p.params);
    }
}

/// Each v1 instruction name belongs to one byte, and only the instruction bytes have
/// a name.
#[verifier::spinoff_prover]
pub proof fn lemma_v1_names(b: u8)
    ensures
        meaning::v1_name(b) is Some <==> is_v1_instruction(b),
        meaning::v1_name(b) == Some("PING"@) <==> b == 0x01,
        meaning::v1_name(b) == Some("READ"@) <==> b == 0x02,
        meaning::v1_name(b) == Some("WRITE"@) <==> b == 0x03,
        meaning::v1_name(b) == Some("REG_WRITE"@) <==> b == 0x04,
        meaning::v1_name(b) == Some("ACTION"@) <==> b == 0x05,
        meaning::v1_name(b) == Some("FACTORY_RESET"@) <==> b == 0x06,
        meaning::v1_name(b) == Some("REBOOT"@) <==> b == 0x08,
        meaning::v1_name(b) == Some("SYNC_WRITE"@) <==> b == 0x83,
        meaning::v1_name(b) == Some("BULK_READ"@) <==> b == 0x92,
{
    reveal_strlit("PING");
    assert("PING"@.len() == 4 && "PING"@[0] == 'P');
    reveal_strlit("READ");
    assert("READ"@.len() == 4 && "READ"@[0] == 'R');
    reveal_strlit("WRITE");
    assert("WRITE"@.len() == 5 && "WRITE"@[0] == 'W');
    reveal_strlit("REG_WRITE");
    assert("REG_WRITE"@.len() == 9 && "REG_WRITE"@[0] == 'R');
    reveal_strlit("ACTION");
    assert("ACTION"@.len() == 6 && "ACTION"@[0] == 'A');
    reveal_strlit("FACTORY_RESET");
    assert("FACTORY_RESET"@.len() == 13 && "FACTORY_RESET"@[0] == 'F');
    reveal_strlit("REBOOT");
    assert("REBOOT"@.len() == 6 && "REBOOT"@[0] == 'R');
    reveal_strlit("SYNC_WRITE");
    assert("SYNC_WRITE"@.len() == 10 && "SYNC_WRITE"@[0] == 'S');
    reveal_strlit("BULK_READ");
    assert("BULK_READ"@.len() == 9 && "BULK_READ"@[0] == 'B');
}

/// Each v2 instruction name belongs to one byte. Version 2 keeps the names of
/// version 1 and adds seven.
#[verifier::spinoff_prover]
pub proof fn lemma_v2_names(b: u8)
    ensures
        is_v1_instruction(b) ==> meaning::v2_name(b) == meaning::v1_name(b),
        meaning::v2_name(b) is Some <==> is_v1_instruction(b) || b == 0x10 || b == 0x20 || b == 0x55
            || b == 0x82 || b == 0x8A || b == 0x93 || b == 0x9A,
        meaning::v2_name(b) == Some("PING"@) <==> b == 0x01,
        meaning::v2_name(b) == Some("READ"@) <==> b == 0x02,
        meaning::v2_name(b) == Some("WRITE"@) <==> b == 0x03,
        meaning::v2_name(b) == Some("REG_WRITE"@) <==> b == 0x04,
        meaning::v2_name(b) == Some("ACTION"@) <==> b == 0x05,
        meaning::v2_name(b) == Some("FACTORY_RESET"@) <==> b == 0x06,
        meaning::v2_name(b) == Some("REBOOT"@) <==> b == 0x08,
        meaning::v2_name(b) == Some("SYNC_WRITE"@) <==> b == 0x83,
        meaning::v2_name(b) == Some("BULK_READ"@) <==> b == 0x92,
        meaning::v2_name(b) == Some("CLEAR"@) <==> b == 0x10,
        meaning::v2_name(b) == Some("CONTROL_TABLE_BACKUP"@) <==> b == 0x20,
        meaning::v2_name(b) == Some("STATUS"@) <==> b == 0x55,
        meaning::v2_name(b) == Some("SYNC_READ"@) <==> b == 0x82,
        meaning::v2_name(b) == Some("FAST_SYNC_READ"@) <==> b == 0x8A,
        meaning::v2_name(b) == Some("BULK_WRITE"@) <==> b == 0x93,
        meaning::v2_name(b) == Some("FAST_BULK_READ"@) <==> b == 0x9A,
{
    reveal_strlit("PING");
    assert("PING"@.len() == 4 && "PING"@[0] == 'P');
    reveal_strlit("READ");
    assert("READ"@.len() == 4 && "READ"@[0] == 'R');
    reveal_strlit("WRITE");
    assert("WRITE"@.len() == 5 && "WRITE"@[0] == 'W');
    reveal_strlit("REG_WRITE");
    assert("REG_WRITE"@.len() == 9 && "REG_WRITE"@[0] == 'R');
    reveal_strlit("ACTION");
    assert("ACTION"@.len() == 6 && "ACTION"@[0] == 'A');
    reveal_strlit("FACTORY_RESET");
    assert("FACTORY_RESET"@.len() == 13 && "FACTORY_RESET"@[0] == 'F');
    reveal_strlit("REBOOT");
    assert("REBOOT"@.len() == 6 && "REBOOT"@[0] == 'R');
    reveal_strlit("SYNC_WRITE");
    assert("SYNC_WRITE"@.len() == 10 && "SYNC_WRITE"@[0] == 'S');
    reveal_strlit("BULK_READ");
    assert("BULK_READ"@.len() == 9 && "BULK_READ"@[0] == 'B');
    reveal_strlit("CLEAR");
    assert("CLEAR"@.len() == 5 && "CLEAR"@[0] == 'C');
    reveal_strlit("CONTROL_TABLE_BACKUP");
    assert("CONTROL_TABLE_BACKUP"@.len() == 20 && "CONTROL_TABLE_BACKUP"@[0] == 'C');
    reveal_strlit("STATUS");
    assert("STATUS"@.len() == 6 && "STATUS"@[0] == 'S');
    reveal_strlit("SYNC_READ");
    assert("SYNC_READ"@.len() == 9 && "SYNC_READ"@[0] == 'S');
    reveal_strlit("FAST_SYNC_READ");
    assert("FAST_SYNC_READ"@.len() == 14 && "FAST_SYNC_READ"@[5] == 'S');
    reveal_strlit("BULK_WRITE");
    assert("BULK_WRITE"@.len() == 10 && "BULK_WRITE"@[0] == 'B');
    reveal_strlit("FAST_BULK_READ");
    assert("FAST_BULK_READ"@.len() == 14 && "FAST_BULK_READ"@[5] == 'B');
}

/// An instruction has the name of its byte, or the name of the unknown, and its
/// packet is kept.
pub proof fn lemma_instructions_are_named(p: Packet)
    ensures
        meaning::v1_master(p) is Master,
        meaning::v1_master(p)->Master_packet == p,
        is_v1_instruction(p.instr_or_err) ==> meaning::v1_name(p.instr_or_err) == Some(
            meaning::v1_master(p)->name,
        ),
        !is_v1_instruction(p.instr_or_err) ==> meaning::v1_master(p)->name == "UNKNOWN"@,
        meaning::v2_master(p) is Master,
        meaning::v2_master(p)->Master_packet == p,
        meaning::v2_name(p.instr_or_err) is Some ==> meaning::v2_name(p.instr_or_err) == Some(
            meaning::v2_master(p)->name,
        ),
        meaning::v2_name(p.instr_or_err) is None ==> meaning::v2_master(p)->name == "UNKNOWN"@,
{
}

/// A v1 error byte without a bit set has no flags, and its highest bit has no name.
pub proof fn lemma_v1_bits_without_name(b: u8)
    requires
        b < 0x80,
    ensures
        meaning::v1_flags(0).len() == 0,
        meaning::v1_flags((b + 0x80) as u8) == meaning::v1_flags(b),
{
    assert(0u8 & 0x01 == 0 && 0u8 & 0x02 == 0 && 0u8 & 0x04 == 0 && 0u8 & 0x08 == 0 && 0u8 & 0x10
        == 0 && 0u8 & 0x20 == 0 && 0u8 & 0x40 == 0) by (bit_vector);
    lemma_next_bit(b, 0x80);
}

/// The flags of a v1 error byte add up bit by bit: setting the next higher bit adds the
/// name of that bit at the end.
#[verifier::spinoff_prover]
pub proof fn lemma_v1_flag_added(b: u8, bit: u8, name: Seq<char>)
    requires
        b < bit,
        (bit == 0x01 && name == "INPUT_VOLTAGE"@) || (bit == 0x02 && name == "ANGLE_LIMIT"@) || (bit
            == 0x04 && name == "OVERHEATING"@) || (bit == 0x08 && name == "RANGE"@) || (bit == 0x10
            && name == "CHECKSUM"@) || (bit == 0x20 && name == "OVERLOAD"@) || (bit == 0x40 && name
            == "INSTRUCTION"@),
    ensures
        meaning::v1_flags((b + bit) as u8) == meaning::v1_flags(b).push(name),
{
    let sum = (b + bit) as u8;
    let none = Seq::<Seq<char>>::empty();
    lemma_next_bit(b, bit);
    let (s0, t0) = (none, none);
    let s1 = s0 + meaning::flag(sum, 0x01, "INPUT_VOLTAGE"@);
    let t1 = t0 + meaning::flag(b, 0x01, "INPUT_VOLTAGE"@);
    assert(s1 =~= (if bit <= 0x01 {
        t1.push(name)
    } else {
        t1
    }));
    let s2 = s1 + meaning::flag(sum, 0x02, "ANGLE_LIMIT"@);
    let t2 = t1 + meaning::flag(b, 0x02, "ANGLE_LIMIT"@);
    assert(s2 =~= (if bit <= 0x02 {
        t2.push(name)
    } else {
        t2
    }));
    let s3 = s2 + meaning::flag(sum, 0x04, "OVERHEATING"@);
    let t3 = t2 + meaning::flag(b, 0x04, "OVERHEATING"@);
    assert(s3 =~= (if bit <= 0x04 {
        t3.push(name)
    } else {
        t3
    }));
    let s4 = s3 + meaning::flag(sum, 0x08, "RANGE"@);
    let t4 = t3 + meaning::flag(b, 0x08, "RANGE"@);
    assert(s4 =~= (if bit <= 0x08 {
        t4.push(name)
    } else {
        t4
    }));
    let s5 = s4 + meaning::flag(sum, 0x10, "CHECKSUM"@);
    let t5 = t4 + meaning::flag(b, 0x10, "CHECKSUM"@);
    assert(s5 =~= (if bit <= 0x10 {
        t5.push(name)
    } else {
        t5
    }));
    let s6 = s5 + meaning::flag(sum, 0x20, "OVERLOAD"@);
    let t6 = t5 + meaning::flag(b, 0x20, "OVERLOAD"@);
    assert(s6 =~= (if bit <= 0x20 {
        t6.push(name)
    } else {
        t6
    }));
    let s7 = s6 + meaning::flag(sum, 0x40, "INSTRUCTION"@);
    let t7 = t6 + meaning::flag(b, 0x40, "INSTRUCTION"@);
    assert(s7 =~= (if bit <= 0x40 {
        t7.push(name)
    } else {
        t7
    }));
    assert(meaning::v1_flags(sum) =~= s7);
    assert(meaning::v1_flags(b) =~= t7);
}

/// A bit added to a number below it is the highest bit set, and the bits below stay.
proof fn lemma_next_bit(b: u8, bit: u8)
    requires
        b < bit,
        bit == 0x01 || bit == 0x02 || bit == 0x04 || bit == 0x08 || bit == 0x10 || bit == 0x20 || bit
            == 0x40 || bit == 0x80,
    ensures
        ({
            let sum = (b + bit) as u8;
            &&& b & bit == 0
            &&& sum & bit != 0
            &&& forall|low: u8|
                low < bit ==> #[trigger] (sum & low) == b & low
            &&& bit <= 0x40 ==> (sum & 0x40 != 0 <==> bit == 0x40)
            &&& bit <= 0x20 ==> (sum & 0x20 != 0 <==> bit == 0x20)
            &&& bit <= 0x10 ==> (sum & 0x10 != 0 <==> bit == 0x10)
            &&& bit <= 0x08 ==> (sum & 0x08 != 0 <==> bit == 0x08)
            &&& bit <= 0x04 ==> (sum & 0x04 != 0 <==> bit == 0x04)
            &&& bit <= 0x02 ==> (sum & 0x02 != 0 <==> bit == 0x02)
            &&& b < 0x40 ==> b & 0x40 == 0
            &&& b < 0x20 ==> b & 0x20 == 0
            &&& b < 0x10 ==> b & 0x10 == 0
            &&& b < 0x08 ==> b & 0x08 == 0
            &&& b < 0x04 ==> b & 0x04 == 0
            &&& b < 0x02 ==> b & 0x02 == 0
            &&& b < 0x01 ==> b & 0x01 == 0
        }),
{
    let sum = (b + bit) as u8;
    assert(b & bit == 0 && sum & bit != 0) by (bit_vector)
        requires
            b < bit,
            sum == b + bit,
            bit == 0x01 || bit == 0x02 || bit == 0x04 || bit == 0x08 || bit == 0x10 || bit == 0x20
                || bit == 0x40 || bit == 0x80,
    ;
    assert forall|low: u8| low < bit implies #[trigger] (sum & low) == b & low by {
        assert(sum & low == b & low) by (bit_vector)
            requires
                b < bit,
                low < bit,
                sum == b + bit,
                bit == 0x01 || bit == 0x02 || bit == 0x04 || bit == 0x08 || bit == 0x10 || bit
                    == 0x20 || bit == 0x40 || bit == 0x80,
        ;
    }
    assert((sum < 0x40 ==> sum & 0x40 == 0) && (sum < 0x20 ==> sum & 0x20 == 0) && (sum < 0x10
        ==> sum & 0x10 == 0) && (sum < 0x08 ==> sum & 0x08 == 0) && (sum < 0x04 ==> sum & 0x04
        == 0) && (sum < 0x02 ==> sum & 0x02 == 0) && (b < 0x40 ==> b & 0x40 == 0) && (b < 0x20
        ==> b & 0x20 == 0) && (b < 0x10 ==> b & 0x10 == 0) && (b < 0x08 ==> b & 0x08 == 0) && (b
        < 0x04 ==> b & 0x04 == 0) && (b < 0x02 ==> b & 0x02 == 0) && (b < 0x01 ==> b & 0x01 == 0))
        by (bit_vector);
}

/// The highest bit of a v2 error byte adds the alert in front of what the rest of
/// the byte says. The rest is one code with one name: zero says nothing, and each
/// code that is not listed has the same name.
pub proof fn lemma_v2_flags_add_up(b: u8)
    requires
        b < 0x80,
    ensures
        meaning::v2_flags((b + 0x80) as u8) == seq!["HW_ALERT"@] + meaning::v2_flags(b),
        b == 0 ==> meaning::v2_flags(b) == Seq::<Seq<char>>::empty(),
        b == 1 ==> meaning::v2_flags(b) == seq!["RESULT_FAIL"@],
        b == 2 ==> meaning::v2_flags(b) == seq!["INSTRUCTION_ERR"@],
        b == 3 ==> meaning::v2_flags(b) == seq!["CRC_ERR"@],
        b == 4 ==> meaning::v2_flags(b) == seq!["DATA_RANGE"@],
        b == 5 ==> meaning::v2_flags(b) == seq!["DATA_LENGTH"@],
        b == 6 ==> meaning::v2_flags(b) == seq!["DATA_LIMIT"@],
        b == 7 ==> meaning::v2_flags(b) == seq!["ACCESS"@],
        b >= 8 ==> meaning::v2_flags(b) == seq!["UNKNOWN_ERR"@],
{
    let alert = (b + 0x80) as u8;
    assert(b & 0x80 == 0 && b & 0x7F == b && alert & 0x80 != 0 && alert & 0x7F == b)
        by (bit_vector)
        requires
            b < 0x80,
            alert == b + 0x80,
    ;
    let rest = if b != 0 {
        seq![meaning::v2_result_name(b)]
    } else {
        Seq::empty()
    };
    assert(meaning::v2_flags(b) =~= rest);
    assert(meaning::v2_flags(alert) =~= seq!["HW_ALERT"@] + rest);
}

/// Which kind a v1 instruction has is decided by its byte and by how many parameters
/// it has.
pub proof fn lemma_v1_kinds(p: Packet)
    ensures
        ({
            let kind = meaning::v1_master(p)->kind;
            let (b, n) = (p.instr_or_err, p.params.len());
            &&& kind is Ping <==> b == 1
            &&& kind is Read <==> b == 2 && n >= 2
            &&& kind is Write <==> b == 3 && n >= 1
            &&& kind is RegWrite <==> b == 4 && n >= 1
            &&& kind is Action <==> b == 5
            &&& kind is FactoryReset <==> b == 6
            &&& kind is Reboot <==> b == 8
            &&& kind is SyncWrite <==> b == 0x83 && n >= 2
            &&& kind is BulkRead <==> b == 0x92 && n >= 1
            &&& kind !is SyncRead
            &&& kind !is BulkWrite
        }),
{
}

/// Which kind a v2 instruction has is decided by its byte and by how many parameters
/// it has.
pub proof fn lemma_v2_kinds(p: Packet)
    ensures
        ({
            let kind = meaning::v2_master(p)->kind;
            let (b, n) = (p.instr_or_err, p.params.len());
            &&& kind is Ping <==> b == 1
            &&& kind is Read <==> b == 2 && n >= 4
            &&& kind is Write <==> b == 3 && n >= 2
            &&& kind is RegWrite <==> b == 4 && n >= 2
            &&& kind is Action <==> b == 5
            &&& kind is FactoryReset <==> b == 6
            &&& kind is Reboot <==> b == 8
            &&& kind is SyncRead <==> b == 0x82 && n >= 4
            &&& kind is SyncWrite <==> b == 0x83 && n >= 4
            &&& kind is BulkWrite <==> b == 0x93 && n >= 1
            &&& kind !is BulkRead
        }),
{
}

/// A number as two bytes, low byte first.
pub open spec fn two_bytes(n: nat) -> Seq<u8> {
    seq![(n % 256) as u8, (n / 256) as u8]
}

/// An address and a length written as the two parameters of a v1 READ are read back,
/// whatever follows them.
pub proof fn lemma_v1_read_round_trip(p: Packet, addr: u8, len: u8, rest: Seq<u8>)
    requires
        p.instr_or_err == 2,
        p.params == seq![addr, len] + rest,
    ensures
        meaning::v1_master(p)->kind == (Kind::Read { addr: addr as u16, len: len as u16 }),
{
}

/// An address and data written as the parameters of a v1 WRITE or REG_WRITE are read
/// back.
pub proof fn lemma_v1_write_round_trip(p: Packet, addr: u8, data: Seq<u8>)
    requires
        p.params == seq![addr] + data,
    ensures
        p.instr_or_err == 3 ==> meaning::v1_master(p)->kind == (Kind::Write {
            addr: addr as u16,
            data,
        }),
        p.instr_or_err == 4 ==> meaning::v1_master(p)->kind == (Kind::RegWrite {
            addr: addr as u16,
            data,
        }),
{
    assert(p.params.skip(1) =~= data);
}

/// An address and a length written as the parameters of a v2 READ are read back,
/// whatever follows them.
pub proof fn lemma_v2_read_round_trip(p: Packet, addr: u16, len: u16, rest: Seq<u8>)
    requires
        p.instr_or_err == 2,
        p.params == two_bytes(addr as nat) + two_bytes(len as nat) + rest,
    ensures
        meaning::v2_master(p)->kind == (Kind::Read { addr, len }),
{
}

/// An address and data written as the parameters of a v2 WRITE or REG_WRITE are read
/// back.
pub proof fn lemma_v2_write_round_trip(p: Packet, addr: u16, data: Seq<u8>)
    requires
        p.params == two_bytes(addr as nat) + data,
    ensures
        p.instr_or_err == 3 ==> meaning::v2_master(p)->kind == (Kind::Write { addr, data }),
        p.instr_or_err == 4 ==> meaning::v2_master(p)->kind == (Kind::RegWrite { addr, data }),
{
    assert(p.params.skip(2) =~= data);
}

/// An address, a length and IDs written as the parameters of a v2 SYNC_READ are read
/// back.
pub proof fn lemma_sync_read_round_trip(p: Packet, addr: u16, len: u16, ids: Seq<u8>)
    requires
        p.instr_or_err == 0x82,
        p.params == two_bytes(addr as nat) + two_bytes(len as nat) + ids,
    ensures
        meaning::v2_master(p)->kind == (Kind::SyncRead { addr, len, ids }),
{
    assert(p.params.skip(4) =~= ids);
}

/// The entries of a sync write on the wire: each ID with its data behind it.
pub open spec fn sync_wire(entries: Seq<(u8, Seq<u8>)>) -> Seq<u8>
    decreases entries.len(),
{
    if entries.len() == 0 {
        Seq::empty()
    } else {
        seq![entries[0].0] + entries[0].1 + sync_wire(entries.skip(1))
    }
}

/// Whether each entry has `len` data bytes.
pub open spec fn all_of_length(entries: Seq<(u8, Seq<u8>)>, len: nat) -> bool {
    forall|i: int| 0 <= i < entries.len() ==> (#[trigger] entries[i]).1.len() == len
}

proof fn lemma_sync_wire_length(entries: Seq<(u8, Seq<u8>)>, len: nat)
    requires
        all_of_length(entries, len),
    ensures
        sync_wire(entries).len() == entries.len() * (len + 1),
    decreases entries.len(),
{
    if entries.len() > 0 {
        let later = entries.skip(1);
        assert(all_of_length(later, len)) by {
            assert forall|i: int| 0 <= i < later.len() implies (#[trigger] later[i]).1.len() == len by {
                assert(later[i] == entries[i + 1]);
            }
        }
        lemma_sync_wire_length(later, len);
        assert(entries[0].1.len() == len);
        assert((entries.len() - 1) * (len + 1) + (len + 1) == entries.len() * (len + 1))
            by (nonlinear_arith);
    } else {
        assert(0 * (len + 1) == 0) by (nonlinear_arith);
    }
}

/// Where an entry of a sync write lies on the wire.
proof fn lemma_sync_wire_piece(entries: Seq<(u8, Seq<u8>)>, tail: Seq<u8>, len: nat, i: int)
    requires
        all_of_length(entries, len),
        0 <= i < entries.len(),
    ensures
        ({
            let wire = sync_wire(entries) + tail;
            let at = i * (len + 1);
            &&& 0 <= at && at + len + 1 <= sync_wire(entries).len()
            &&& wire[at] == entries[i].0
            &&& wire.subrange(at + 1, at + len + 1) == entries[i].1
        }),
    decreases entries.len(),
{
    let later = entries.skip(1);
    let head = seq![entries[0].0] + entries[0].1;
    let wire = sync_wire(entries) + tail;
    let at = i * (len + 1);
    assert(entries[0].1.len() == len);
    assert(head.len() == len + 1);
    assert(wire =~= head + (sync_wire(later) + tail));
    if i == 0 {
        assert(at == 0) by (nonlinear_arith)
            requires
                at == i * (len + 1),
                i == 0,
        ;
        assert(wire.subrange(1, 1 + len as int) =~= entries[0].1);
    } else {
        assert(all_of_length(later, len)) by {
            assert forall|j: int| 0 <= j < later.len() implies (#[trigger] later[j]).1.len() == len by {
                assert(later[j] == entries[j + 1]);
            }
        }
        lemma_sync_wire_piece(later, tail, len, i - 1);
        let before = (i - 1) * (len + 1);
        assert(at == before + (len + 1)) by (nonlinear_arith)
            requires
                at == i * (len + 1),
                before == (i - 1) * (len + 1),
        ;
        let rest = sync_wire(later) + tail;
        assert(wire[at] == rest[before]);
        assert(wire.subrange(at + 1, at + len + 1) =~= rest.subrange(before + 1, before + len + 1));
    }
}

proof fn lemma_sync_entries(entries: Seq<(u8, Seq<u8>)>, tail: Seq<u8>, len: nat)
    requires
        all_of_length(entries, len),
        tail.len() <= len,
    ensures
        meaning::sync_entries(sync_wire(entries) + tail, len) == entries,
{
    let wire = sync_wire(entries) + tail;
    let stride = len + 1;
    lemma_sync_wire_length(entries, len);
    vstd::arithmetic::div_mod::lemma_fundamental_div_mod_converse(
        wire.len() as int,
        stride as int,
        entries.len() as int,
        tail.len() as int,
    );
    let found = meaning::sync_entries(wire, len);
    assert forall|i: int| 0 <= i < entries.len() implies found[i] == entries[i] by {
        lemma_sync_wire_piece(entries, tail, len, i);
    }
    assert(found =~= entries);
}

/// Entries of equal length written as the parameters of a SYNC_WRITE are read back,
/// all of them and in their order. Bytes behind them that are too few for one more
/// entry are left out.
pub proof fn lemma_sync_write_round_trip(
    p: Packet,
    addr: u16,
    len: u16,
    entries: Seq<(u8, Seq<u8>)>,
    tail: Seq<u8>,
)
    requires
        p.instr_or_err == 0x83,
        all_of_length(entries, len as nat),
        tail.len() <= len,
    ensures
        addr < 256 && len < 256 && p.params == seq![addr as u8, len as u8] + sync_wire(entries)
            + tail ==> meaning::v1_master(p)->kind == (Kind::SyncWrite { addr, len, entries }),
        p.params == two_bytes(addr as nat) + two_bytes(len as nat) + sync_wire(entries) + tail
            ==> meaning::v2_master(p)->kind == (Kind::SyncWrite { addr, len, entries }),
{
    lemma_sync_entries(entries, tail, len as nat);
    let body = sync_wire(entries) + tail;
    if addr < 256 && len < 256 && p.params == seq![addr as u8, len as u8] + sync_wire(entries)
        + tail {
        assert(p.params.skip(2) =~= body);
    }
    if p.params == two_bytes(addr as nat) + two_bytes(len as nat) + sync_wire(entries) + tail {
        assert(p.params.skip(4) =~= body);
    }
}

/// The entries of a v1 bulk read on the wire: length, ID and address.
pub open spec fn bulk_read_wire(entries: Seq<(u8, u16, u16)>) -> Seq<u8>
    decreases entries.len(),
{
    if entries.len() == 0 {
        Seq::empty()
    } else {
        let (id, addr, len) = entries[0];
        seq![len as u8, id, addr as u8] + bulk_read_wire(entries.skip(1))
    }
}

/// Whether the addresses and lengths fit into a byte.
pub open spec fn all_single_bytes(entries: Seq<(u8, u16, u16)>) -> bool {
    forall|i: int|
        0 <= i < entries.len() ==> (#[trigger] entries[i]).1 < 256 && entries[i].2 < 256
}

proof fn lemma_bulk_read_entries(entries: Seq<(u8, u16, u16)>, tail: Seq<u8>)
    requires
        all_single_bytes(entries),
        tail.len() < 3,
    ensures
        bulk_read_wire(entries).len() == 3 * entries.len(),
        meaning::bulk_read_entries(bulk_read_wire(entries) + tail) == entries,
    decreases entries.len(),
{
    let wire = bulk_read_wire(entries) + tail;
    let found = meaning::bulk_read_entries(wire);
    if entries.len() > 0 {
        let later = entries.skip(1);
        let rest = bulk_read_wire(later) + tail;
        assert(all_single_bytes(later)) by {
            assert forall|i: int| 0 <= i < later.len() implies (#[trigger] later[i]).1 < 256
                && later[i].2 < 256 by {
                assert(later[i] == entries[i + 1]);
            }
        }
        lemma_bulk_read_entries(later, tail);
        assert(entries[0].1 < 256 && entries[0].2 < 256);
        assert(wire =~= seq![entries[0].2 as u8, entries[0].0, entries[0].1 as u8] + rest);
        assert forall|i: int| 0 <= i < entries.len() implies found[i] == entries[i] by {
            if i > 0 {
                assert(meaning::bulk_read_entries(rest)[i - 1] == later[i - 1]);
                assert(wire[3 * i] == rest[3 * (i - 1)]);
                assert(wire[3 * i + 1] == rest[3 * (i - 1) + 1]);
                assert(wire[3 * i + 2] == rest[3 * (i - 1) + 2]);
            }
        }
    }
    assert(found =~= entries);
}

/// Entries written as the parameters of a v1 BULK_READ, behind one reserved byte, are
/// read back, all of them and in their order. One or two bytes behind them are left
/// out.
pub proof fn lemma_bulk_read_round_trip(
    p: Packet,
    reserved: u8,
    entries: Seq<(u8, u16, u16)>,
    tail: Seq<u8>,
)
    requires
        p.instr_or_err == 0x92,
        all_single_bytes(entries),
        tail.len() < 3,
        p.params == seq![reserved] + bulk_read_wire(entries) + tail,
    ensures
        meaning::v1_master(p)->kind == (Kind::BulkRead { entries }),
{
    lemma_bulk_read_entries(entries, tail);
    assert(p.params.skip(1) =~= bulk_read_wire(entries) + tail);
}

/// The entries of a v2 bulk write on the wire: ID, address, length and data.
pub open spec fn bulk_write_wire(entries: Seq<(u8, u16, Seq<u8>)>) -> Seq<u8>
    decreases entries.len(),
{
    if entries.len() == 0 {
        Seq::empty()
    } else {
        let (id, addr, data) = entries[0];
        seq![id] + two_bytes(addr as nat) + two_bytes(data.len()) + data + bulk_write_wire(
            entries.skip(1),
        )
    }
}

/// Whether the lengths of the data fit into two bytes.
pub open spec fn all_fit(entries: Seq<(u8, u16, Seq<u8>)>) -> bool {
    forall|i: int| 0 <= i < entries.len() ==> (#[trigger] entries[i]).2.len() < 65536
}

/// Whether bytes end before the end of the bulk write entry that starts with them.
pub open spec fn is_cut_off(s: Seq<u8>) -> bool {
    s.len() < 5 || s.len() < 5 + s[3] + 256 * s[4]
}

proof fn lemma_bulk_write_entries(entries: Seq<(u8, u16, Seq<u8>)>, tail: Seq<u8>)
    requires
        all_fit(entries),
        is_cut_off(tail),
    ensures
        meaning::bulk_write_entries(bulk_write_wire(entries) + tail) == entries,
    decreases entries.len(),
{
    let wire = bulk_write_wire(entries) + tail;
    if entries.len() == 0 {
        assert(wire =~= tail);
    } else {
        let later = entries.skip(1);
        let (id, addr, data) = entries[0];
        assert(all_fit(later)) by {
            assert forall|i: int| 0 <= i < later.len() implies (#[trigger] later[i]).2.len()
                < 65536 by {
                assert(later[i] == entries[i + 1]);
            }
        }
        lemma_bulk_write_entries(later, tail);
        assert(entries[0].2.len() < 65536);
        let end = 5 + data.len();
        assert(wire.subrange(5, end as int) =~= data);
        assert(wire.skip(end as int) =~= bulk_write_wire(later) + tail);
        assert(seq![entries[0]] + later =~= entries);
    }
}

/// Entries written as the parameters of a v2 BULK_WRITE are read back, all of them and
/// in their order. An entry behind them that is cut off is left out.
pub proof fn lemma_bulk_write_round_trip(
    p: Packet,
    entries: Seq<(u8, u16, Seq<u8>)>,
    tail: Seq<u8>,
)
    requires
        p.instr_or_err == 0x93,
        p.params.len() > 0,
        all_fit(entries),
        is_cut_off(tail),
        p.params == bulk_write_wire(entries) + tail,
    ensures
        meaning::v2_master(p)->kind == (Kind::BulkWrite { entries }),
{
    lemma_bulk_write_entries(entries, tail);
}

/// The contents of a packet are its fields.
pub proof fn lemma_packet_shows_its_fields(p: RawPacket)
    ensures
        p@.version == p.version,
        p@.id == p.id,
        p@.instr_or_err == p.instr_or_err,
        p@.params == p.params@,
        p@.raw == p.raw@,
{
}

/// What a decoded packet says is what its fields hold.
pub proof fn lemma_decoded_shows_its_fields(i: Instruction, s: Status, p: RawPacket)
    ensures
        Decoded::Master(i)@ is Master,
        Decoded::Master(i)@->Master_packet == i.raw@,
        Decoded::Master(i)@->name == i.name@,
        Decoded::Master(i)@->kind == i.kind@,
        Decoded::Slave(s)@ is Slave,
        Decoded::Slave(s)@->Slave_packet == s.raw@,
        Decoded::Slave(s)@->error == s.error,
        Decoded::Slave(s)@->data == s.data@,
        Decoded::Slave(s)@->error_flags.len() == s.error_flags@.len(),
        forall|k: int|
            0 <= k < s.error_flags@.len() ==> #[trigger] Decoded::Slave(s)@->error_flags[k]
                == s.error_flags@[k]@,
        Decoded::Unknown(p)@ is Unknown,
        Decoded::Unknown(p)@->Unknown_packet == p@,
        meaning::packet_of(Decoded::Master(i)@) == i.raw@,
        meaning::packet_of(Decoded::Slave(s)@) == s.raw@,
        meaning::packet_of(Decoded::Unknown(p)@) == p@,
        i@ == Decoded::Master(i)@,
        s@ == Decoded::Slave(s)@,
{
}

/// What an instruction asks for is what its fields hold, entry by entry where it has
/// entries.
pub proof fn lemma_kind_shows_its_fields(k: InstrKind)
    ensures
        match k {
            InstrKind::Ping => k@ is Ping,
            InstrKind::Read { addr, len } => k@ is Read && k@->Read_addr == addr && k@->Read_len
                == len,
            InstrKind::Write { addr, data } => k@ is Write && k@->Write_addr == addr
                && k@->Write_data == data@,
            InstrKind::RegWrite { addr, data } => k@ is RegWrite && k@->RegWrite_addr == addr
                && k@->RegWrite_data == data@,
            InstrKind::Action => k@ is Action,
            InstrKind::FactoryReset => k@ is FactoryReset,
            InstrKind::Reboot => k@ is Reboot,
            InstrKind::SyncRead { addr, len, ids } => k@ is SyncRead && k@->SyncRead_addr == addr
                && k@->SyncRead_len == len && k@->SyncRead_ids == ids@,
            InstrKind::SyncWrite { addr, len, entries } => k@ is SyncWrite && k@->SyncWrite_addr
                == addr && k@->SyncWrite_len == len && k@->SyncWrite_entries.len()
                == entries@.len() && forall|j: int|
                0 <= j < entries@.len() ==> #[trigger] k@->SyncWrite_entries[j] == (
                    entries@[j].0,
                    entries@[j].1@,
                ),
            InstrKind::BulkRead { entries } => k@ is BulkRead && k@->BulkRead_entries == entries@,
            InstrKind::BulkWrite { entries } => k@ is BulkWrite && k@->BulkWrite_entries.len()
                == entries@.len() && forall|j: int|
                0 <= j < entries@.len() ==> #[trigger] k@->BulkWrite_entries[j] == (
                    entries@[j].0,
                    entries@[j].1,
                    entries@[j].2@,
                ),
            InstrKind::Other => k@ is Other,
        },
{
}

/// The texts of names are the names' own characters, one text for each name.
pub proof fn lemma_names_show_their_characters(
    name: Option<&'static str>,
    names: Seq<&'static str>,
)
    ensures
        name is Some <==> decode::text_of(name) is Some,
        name is Some ==> decode::text_of(name)->Some_0 == name->Some_0@,
        text::texts(names).len() == names.len(),
        forall|i: int| 0 <= i < names.len() ==> #[trigger] text::texts(names)[i] == names[i]@,
{
}

/// The v1 ambiguity: one and the same packet is a PING when it is read as an
/// instruction, and a status with error 0x01, INPUT_VOLTAGE, and no data when it is
/// read as a reply.
pub proof fn lemma_ping_looks_like_status(p: Packet)
    requires
        p.version == ProtocolVersion::V1,
        p.instr_or_err == 0x01,
        p.params.len() == 0,
    ensures
        meaning::v1_master(p) == (Meaning::Master { packet: p, name: "PING"@, kind: Kind::Ping }),
        meaning::v1_slave(p) == (Meaning::Slave {
            packet: p,
            error: 0x01,
            error_flags: seq!["INPUT_VOLTAGE"@],
            data: Seq::empty(),
        }),
{
    assert(1u8 & 0x01 != 0 && 1u8 & 0x02 == 0 && 1u8 & 0x04 == 0 && 1u8 & 0x08 == 0 && 1u8 & 0x10
        == 0 && 1u8 & 0x20 == 0 && 1u8 & 0x40 == 0) by (bit_vector);
    assert(meaning::v1_flags(1) =~= seq!["INPUT_VOLTAGE"@]);
    assert(p.params =~= Seq::<u8>::empty());
}

} // verus!
