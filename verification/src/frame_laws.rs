//! Laws of framing: what the search for packets finds, and what it never does.

use vstd::prelude::*;

use crate::bytes;
use crate::crc;
use crate::frame::{self, Packet, Verdict};
use crate::parser::{ProtocolVersion, Version};
use crate::stuffing;

verus! {

/// Once the bytes at hand settle whether a frame starts at the front, more bytes
/// do not change the verdict.
pub proof fn lemma_verdict_is_final(mode: Version, s: Seq<u8>, more: Seq<u8>)
    requires
        s.len() >= 2,
        frame::verdict(mode, s) !is Incomplete,
    ensures
        frame::verdict(mode, s + more) == frame::verdict(mode, s),
{
    let all = s + more;
    if frame::starts_with_header(s) {
        let v1_total = 4 + s[3];
        if s.len() >= v1_total {
            assert(all.take(v1_total) =~= s.take(v1_total));
        }
        if s.len() >= 7 {
            let v2_total = 7 + bytes::le16(s[5], s[6]);
            if s.len() >= v2_total {
                assert(all.take(v2_total) =~= s.take(v2_total));
            }
        }
    }
}

/// A whole frame has at least six bytes and lies at the front of what was judged.
proof fn lemma_complete_frame_is_in_front(mode: Version, s: Seq<u8>)
    ensures
        frame::verdict(mode, s) matches Verdict::Complete(p) ==> 6 <= p.raw.len() <= s.len()
            && p.raw == s.take(p.raw.len() as int),
{
}

/// A packet that is found takes at least six bytes out of the buffer, and nothing
/// ever adds bytes to it.
pub proof fn lemma_scan_shrinks(mode: Version, buf: Seq<u8>)
    ensures
        frame::scan(mode, buf).1.len() <= buf.len(),
        frame::scan(mode, buf).0 is Some ==> frame::scan(mode, buf).1.len() + 6 <= buf.len(),
    decreases buf.len(),
{
    lemma_complete_frame_is_in_front(mode, buf);
    if buf.len() >= 2 && frame::verdict(mode, buf) is Reject {
        lemma_scan_shrinks(mode, buf.skip(1));
    }
}

/// All packets that can be taken out of `buf` one after the other, and the bytes
/// that are left.
pub open spec fn drain(mode: Version, buf: Seq<u8>) -> (Seq<Packet>, Seq<u8>)
    decreases buf.len(),
{
    match frame::scan(mode, buf) {
        (Some(p), rest) => {
            proof {
                lemma_scan_shrinks(mode, buf);
            }
            let (packets, left) = drain(mode, rest);
            (seq![p] + packets, left)
        },
        (None, rest) => (Seq::empty(), rest),
    }
}

/// A packet that is found would also be found with more bytes behind it. Where
/// none is found, the search can go on later from the bytes that were kept.
pub proof fn lemma_scan_resumes(mode: Version, buf: Seq<u8>, more: Seq<u8>)
    ensures
        match frame::scan(mode, buf) {
            (Some(p), rest) => frame::scan(mode, buf + more) == (Some(p), rest + more),
            (None, rest) => frame::scan(mode, buf + more) == frame::scan(mode, rest + more),
        },
    decreases buf.len(),
{
    if buf.len() >= 2 {
        match frame::verdict(mode, buf) {
            Verdict::Complete(p) => {
                lemma_complete_frame_is_in_front(mode, buf);
                lemma_verdict_is_final(mode, buf, more);
                let n = p.raw.len() as int;
                assert((buf + more).skip(n) =~= buf.skip(n) + more);
            },
            Verdict::Incomplete => {},
            Verdict::Reject => {
                lemma_verdict_is_final(mode, buf, more);
                lemma_scan_resumes(mode, buf.skip(1), more);
                assert((buf + more).skip(1) =~= buf.skip(1) + more);
            },
        }
    }
}

/// It does not matter how a stream is cut into pieces: taking out all packets
/// after a first piece and again after a second gives the same packets, and leaves
/// the same bytes, as doing so once after both.
pub proof fn lemma_pieces_do_not_matter(mode: Version, first: Seq<u8>, second: Seq<u8>)
    ensures
        ({
            let (packets, kept) = drain(mode, first);
            let (later, left) = drain(mode, kept + second);
            drain(mode, first + second) == (packets + later, left)
        }),
    decreases first.len(),
{
    lemma_scan_resumes(mode, first, second);
    lemma_scan_shrinks(mode, first);
    let (packets, kept) = drain(mode, first);
    let (later, left) = drain(mode, kept + second);
    match frame::scan(mode, first) {
        (Some(p), rest) => {
            lemma_pieces_do_not_matter(mode, rest, second);
            let (tail, _) = drain(mode, rest);
            assert(seq![p] + (tail + later) =~= packets + later);
        },
        (None, rest) => {
            assert(packets + later =~= later);
        },
    }
}

/// When no packet is found, looking again without new bytes finds none either and
/// keeps the same bytes. Those are fewer than the longest frame has.
pub proof fn lemma_nothing_more_to_find(mode: Version, buf: Seq<u8>)
    requires
        frame::scan(mode, buf).0 is None,
    ensures
        frame::scan(mode, frame::scan(mode, buf).1) == frame::scan(mode, buf),
        frame::scan(mode, buf).1.len() < 1024,
    decreases buf.len(),
{
    if buf.len() >= 2 && frame::verdict(mode, buf) is Reject {
        lemma_nothing_more_to_find(mode, buf.skip(1));
    }
}

/// Taking out all packets leaves bytes out of which no packet can be taken.
pub proof fn lemma_drain_takes_everything(mode: Version, buf: Seq<u8>)
    ensures
        frame::scan(mode, drain(mode, buf).1) == (None::<Packet>, drain(mode, buf).1),
        drain(mode, buf).1.len() < 1024,
    decreases buf.len(),
{
    lemma_scan_shrinks(mode, buf);
    match frame::scan(mode, buf) {
        (Some(_), rest) => {
            lemma_drain_takes_everything(mode, rest);
        },
        (None, _) => {
            lemma_nothing_more_to_find(mode, buf);
        },
    }
}

/// Bytes at which no frame starts are skipped: the search goes on behind them.
pub proof fn lemma_scan_skips_rejected(mode: Version, buf: Seq<u8>, n: int)
    requires
        0 <= n < buf.len(),
        forall|j: int| 0 <= j < n ==> frame::verdict(mode, #[trigger] buf.skip(j)) is Reject,
    ensures
        frame::scan(mode, buf) == frame::scan(mode, buf.skip(n)),
    decreases n,
{
    assert(buf.skip(0) =~= buf);
    if n > 0 {
        let next = buf.skip(1);
        assert forall|j: int| 0 <= j < n - 1 implies frame::verdict(
            mode,
            #[trigger] next.skip(j),
        ) is Reject by {
            assert(next.skip(j) =~= buf.skip(j + 1));
        }
        lemma_scan_skips_rejected(mode, next, n - 1);
        assert(next.skip(n - 1) =~= buf.skip(n));
        assert(frame::verdict(mode, buf.skip(0)) is Reject);
    }
}

/// A frame behind garbage is found, whatever follows it, if no position inside the
/// garbage looks like the start of a frame.
pub proof fn lemma_resync_behind_garbage(
    mode: Version,
    garbage: Seq<u8>,
    wire: Seq<u8>,
    rest: Seq<u8>,
)
    requires
        frame::verdict(mode, wire) matches Verdict::Complete(p) && p.raw == wire,
        forall|j: int|
            0 <= j < garbage.len() ==> frame::verdict(
                mode,
                #[trigger] (garbage + wire + rest).skip(j),
            ) is Reject,
    ensures
        frame::verdict(mode, wire) matches Verdict::Complete(p) && frame::scan(
            mode,
            garbage + wire + rest,
        ) == (Some(p), rest),
{
    let buf = garbage + wire + rest;
    let n = garbage.len() as int;
    lemma_complete_frame_is_in_front(mode, wire);
    lemma_scan_skips_rejected(mode, buf, n);
    assert(buf.skip(n) =~= wire + rest);
    lemma_verdict_is_final(mode, wire, rest);
    assert((wire + rest).skip(wire.len() as int) =~= rest);
}

/// Garbage without a byte FF never hides the frame behind it.
pub proof fn lemma_resync_behind_plain_garbage(
    mode: Version,
    garbage: Seq<u8>,
    wire: Seq<u8>,
    rest: Seq<u8>,
)
    requires
        frame::verdict(mode, wire) matches Verdict::Complete(p) && p.raw == wire,
        forall|j: int| 0 <= j < garbage.len() ==> #[trigger] garbage[j] != 0xFF,
    ensures
        frame::verdict(mode, wire) matches Verdict::Complete(p) && frame::scan(
            mode,
            garbage + wire + rest,
        ) == (Some(p), rest),
{
    let buf = garbage + wire + rest;
    assert forall|j: int| 0 <= j < garbage.len() implies frame::verdict(
        mode,
        #[trigger] buf.skip(j),
    ) is Reject by {
        assert(buf.skip(j)[0] == garbage[j]);
    }
    lemma_resync_behind_garbage(mode, garbage, wire, rest);
}

/// The wire bytes of packets that follow each other on the bus.
pub open spec fn on_wire(packets: Seq<Packet>) -> Seq<u8>
    decreases packets.len(),
{
    if packets.len() == 0 {
        Seq::empty()
    } else {
        packets[0].raw + on_wire(packets.skip(1))
    }
}

/// All frames of an uninterrupted stream come out, in their order, whatever mix of
/// versions, instructions and replies they are.
pub proof fn lemma_stream_comes_out(mode: Version, packets: Seq<Packet>, rest: Seq<u8>)
    requires
        forall|i: int|
            0 <= i < packets.len() ==> frame::verdict(mode, (#[trigger] packets[i]).raw)
                == Verdict::Complete(packets[i]),
    ensures
        drain(mode, on_wire(packets) + rest) == (
            packets + drain(mode, rest).0,
            drain(mode, rest).1,
        ),
    decreases packets.len(),
{
    if packets.len() == 0 {
        assert(on_wire(packets) + rest =~= rest);
        assert(packets + drain(mode, rest).0 =~= drain(mode, rest).0);
    } else {
        let p = packets[0];
        let tail = packets.skip(1);
        let later = on_wire(tail) + rest;
        assert forall|i: int| 0 <= i < tail.len() implies frame::verdict(
            mode,
            (#[trigger] tail[i]).raw,
        ) == Verdict::Complete(tail[i]) by {
            assert(tail[i] == packets[i + 1]);
        }
        lemma_stream_comes_out(mode, tail, rest);
        assert(frame::verdict(mode, packets[0].raw) == Verdict::Complete(p));
        lemma_complete_frame_is_in_front(mode, p.raw);
        lemma_verdict_is_final(mode, p.raw, later);
        assert(on_wire(packets) + rest =~= p.raw + later);
        assert((p.raw + later).skip(p.raw.len() as int) =~= later);
        assert(seq![p] + (tail + drain(mode, rest).0) =~= packets + drain(mode, rest).0);
    }
}

/// A v1 frame is read back as the packet that was written into it, unless only v2
/// frames are looked for.
pub proof fn lemma_v1_round_trip(
    mode: Version,
    id: u8,
    instr: u8,
    params: Seq<u8>,
    rest: Seq<u8>,
)
    requires
        mode != Version::V2,
        params.len() <= 253,
    ensures
        frame::scan(mode, frame::v1_frame(id, instr, params) + rest) == (
            Some(
                Packet {
                    version: ProtocolVersion::V1,
                    id,
                    instr_or_err: instr,
                    params,
                    raw: frame::v1_frame(id, instr, params),
                },
            ),
            rest,
        ),
{
    let body = seq![id, (params.len() + 2) as u8, instr] + params;
    let wire = frame::v1_frame(id, instr, params);
    let s = wire + rest;
    let total = params.len() + 6;
    assert(s.take(total as int) =~= wire);
    assert(wire.subrange(2, wire.len() - 1) =~= body);
    assert(wire.subrange(5, wire.len() - 1) =~= params);
    assert(s.skip(total as int) =~= rest);
}

/// A v2 frame around a stuffed payload is read back with the payload that was
/// stuffed, unless only v1 frames are looked for.
pub proof fn lemma_v2_round_trip(
    mode: Version,
    id: u8,
    instr: u8,
    params: Seq<u8>,
    rest: Seq<u8>,
)
    requires
        mode != Version::V1,
        stuffing::stuff(params).len() + 10 <= 1024,
    ensures
        frame::scan(mode, frame::v2_frame(id, instr, stuffing::stuff(params)) + rest) == (
            Some(
                Packet {
                    version: ProtocolVersion::V2,
                    id,
                    instr_or_err: instr,
                    params,
                    raw: frame::v2_frame(id, instr, stuffing::stuff(params)),
                },
            ),
            rest,
        ),
{
    let wire_params = stuffing::stuff(params);
    let len = wire_params.len() + 3;
    let wire = frame::v2_frame(id, instr, wire_params);
    let body = wire.take(wire.len() - 2);
    let s = wire + rest;
    let total = wire_params.len() + 10;
    assert(body =~= seq![
        0xFFu8,
        0xFF,
        0xFD,
        0x00,
        id,
        (len % 256) as u8,
        (len / 256) as u8,
        instr,
    ] + wire_params);
    assert(s.take(total as int) =~= wire);
    assert(wire.subrange(8, wire.len() - 2) =~= wire_params);
    assert(s.skip(total as int) =~= rest);
    stuffing::lemma_unstuff_inverts_stuff(params);
}

/// How a v1 frame is laid out: two header bytes, the ID, a length that counts the
/// parameters and two more bytes, the instruction, the parameters, and a last byte
/// with which the low byte of the sum of all bytes behind the header is 255.
pub proof fn lemma_v1_frame_layout(id: u8, instr: u8, params: Seq<u8>)
    requires
        params.len() <= 253,
    ensures
        ({
            let wire = frame::v1_frame(id, instr, params);
            &&& wire.len() == params.len() + 6
            &&& wire[0] == 0xFF && wire[1] == 0xFF
            &&& wire[2] == id
            &&& wire[3] == params.len() + 2
            &&& wire[4] == instr
            &&& wire.subrange(5, wire.len() - 1) == params
            &&& bytes::byte_sum(wire.skip(2)) % 256 == 255
        }),
{
    let wire = frame::v1_frame(id, instr, params);
    let body = seq![id, (params.len() + 2) as u8, instr] + params;
    assert(wire.subrange(5, wire.len() - 1) =~= params);
    assert(wire.skip(2).drop_last() =~= body);
}

/// How a v2 frame is laid out: four header bytes, the ID, a length of two bytes that
/// counts the parameters and three more bytes, the instruction, the parameters as they
/// travel, and the checksum of all that in two bytes. Numbers come low byte first.
pub proof fn lemma_v2_frame_layout(id: u8, instr: u8, wire_params: Seq<u8>)
    requires
        wire_params.len() <= 1014,
    ensures
        ({
            let wire = frame::v2_frame(id, instr, wire_params);
            let n = wire_params.len() as int;
            &&& wire.len() == n + 10
            &&& wire[0] == 0xFF && wire[1] == 0xFF && wire[2] == 0xFD && wire[3] == 0x00
            &&& wire[4] == id
            &&& wire[5] + 256 * wire[6] == n + 3
            &&& wire[7] == instr
            &&& wire.subrange(8, n + 8) == wire_params
            &&& wire[n + 8] + 256 * wire[n + 9] == crc::crc16(wire.take(n + 8))
        }),
{
    let len = wire_params.len() + 3;
    let wire = frame::v2_frame(id, instr, wire_params);
    let n = wire_params.len() as int;
    assert(wire.subrange(8, n + 8) =~= wire_params);
    assert(wire.take(n + 8) =~= seq![
        0xFFu8,
        0xFF,
        0xFD,
        0x00,
        id,
        (len % 256) as u8,
        (len / 256) as u8,
        instr,
    ] + wire_params);
}

/// A single byte is kept, since it may be the first of a header, and so are two header
/// bytes until two more have come.
pub proof fn lemma_short_input_is_kept(mode: Version, buf: Seq<u8>)
    requires
        buf.len() < 2 || (buf.len() < 4 && buf[0] == 0xFF && buf[1] == 0xFF),
    ensures
        frame::scan(mode, buf) == (None::<Packet>, buf),
{
}

/// Where the bytes `FF FF` do not stand in front, the first byte is dropped.
pub proof fn lemma_noise_is_dropped(mode: Version, buf: Seq<u8>)
    requires
        buf.len() >= 2,
        buf[0] != 0xFF || buf[1] != 0xFF,
    ensures
        frame::scan(mode, buf) == frame::scan(mode, buf.skip(1)),
{
}

/// Where only v2 frames are looked for, a header that does not go on with `FD 00` is
/// noise.
pub proof fn lemma_v1_header_is_noise_for_v2(buf: Seq<u8>)
    requires
        buf.len() >= 4,
        buf[2] != 0xFD || buf[3] != 0x00,
    ensures
        frame::scan(Version::V2, buf) == frame::scan(Version::V2, buf.skip(1)),
{
}

/// What becomes of a v1 header in front. With a length below two it is noise. Until as
/// many bytes as the length says have come, all is kept. Then, if the sum of the bytes
/// behind the header has the low byte 255, the packet comes out and what follows it is
/// kept, and otherwise the header was noise. Where both versions are looked for, a
/// header that goes on with `FD 00` is no v1 header.
pub proof fn lemma_v1_header_in_front(mode: Version, buf: Seq<u8>)
    requires
        mode == Version::V1 || (mode == Version::Auto && (buf[2] != 0xFD || buf[3] != 0x00)),
        buf.len() >= 4,
        buf[0] == 0xFF,
        buf[1] == 0xFF,
    ensures
        ({
            let total = 4 + buf[3];
            let found = frame::scan(mode, buf);
            if buf[3] < 2 {
                found == frame::scan(mode, buf.skip(1))
            } else if buf.len() < total {
                found == (None::<Packet>, buf)
            } else if bytes::byte_sum(buf.subrange(2, total)) % 256 == 255 {
                &&& found.0 is Some
                &&& found.0->Some_0.version == ProtocolVersion::V1
                &&& found.0->Some_0.id == buf[2]
                &&& found.0->Some_0.instr_or_err == buf[4]
                &&& found.0->Some_0.params == buf.subrange(5, total - 1)
                &&& found.0->Some_0.raw == buf.take(total)
                &&& found.1 == buf.skip(total)
            } else {
                found == frame::scan(mode, buf.skip(1))
            }
        }),
{
    let total = 4 + buf[3];
    if 2 <= buf[3] && total <= buf.len() {
        let wire = buf.take(total);
        assert(buf.subrange(2, total).drop_last() =~= wire.subrange(2, total - 1));
        assert(wire.subrange(5, total - 1) =~= buf.subrange(5, total - 1));
    }
}

/// What becomes of a v2 header in front. Until the length has come, all is kept. With a
/// length below three, or one that makes the frame longer than 1024 bytes, the header
/// is noise. Until as many bytes as the length says have come, all is kept. Then, if
/// the last two bytes are the checksum of all before them, the packet comes out with
/// the stuffing taken out of its parameters, and what follows it is kept; otherwise the
/// header was noise.
pub proof fn lemma_v2_header_in_front(mode: Version, buf: Seq<u8>)
    requires
        mode != Version::V1,
        buf.len() >= 4,
        buf[0] == 0xFF,
        buf[1] == 0xFF,
        buf[2] == 0xFD,
        buf[3] == 0x00,
    ensures
        ({
            let total = 7 + buf[5] + 256 * buf[6];
            let found = frame::scan(mode, buf);
            if buf.len() < 7 {
                found == (None::<Packet>, buf)
            } else if total < 10 || total > 1024 {
                found == frame::scan(mode, buf.skip(1))
            } else if buf.len() < total {
                found == (None::<Packet>, buf)
            } else if buf[total - 2] + 256 * buf[total - 1] == crc::crc16(buf.take(total - 2)) {
                &&& found.0 is Some
                &&& found.0->Some_0.version == ProtocolVersion::V2
                &&& found.0->Some_0.id == buf[4]
                &&& found.0->Some_0.instr_or_err == buf[7]
                &&& found.0->Some_0.params == stuffing::unstuff(buf.subrange(8, total - 2))
                &&& found.0->Some_0.raw == buf.take(total)
                &&& found.1 == buf.skip(total)
            } else {
                found == frame::scan(mode, buf.skip(1))
            }
        }),
{
    let total = 7 + buf[5] + 256 * buf[6];
    if buf.len() >= 7 && 10 <= total <= 1024 && total <= buf.len() {
        let wire = buf.take(total);
        assert(wire.take(total - 2) =~= buf.take(total - 2));
        assert(wire.subrange(8, total - 2) =~= buf.subrange(8, total - 2));
    }
}

/// The search never passes over a frame: where a packet is found, no whole frame of a
/// version that is looked for starts before it.
pub proof fn lemma_no_frame_is_passed_over(
    mode: Version,
    buf: Seq<u8>,
    at: int,
    id: u8,
    instr: u8,
    params: Seq<u8>,
)
    requires
        frame::scan(mode, buf).0 is Some,
        0 <= at,
        at + frame::scan(mode, buf).0->Some_0.raw.len() + frame::scan(mode, buf).1.len()
            < buf.len(),
    ensures
        mode != Version::V2 && params.len() <= 253 ==> !frame::v1_frame(
            id,
            instr,
            params,
        ).is_prefix_of(buf.skip(at)),
        mode != Version::V1 && stuffing::stuff(params).len() <= 1014 ==> !frame::v2_frame(
            id,
            instr,
            stuffing::stuff(params),
        ).is_prefix_of(buf.skip(at)),
    decreases buf.len(),
{
    lemma_complete_frame_is_in_front(mode, buf);
    let v1 = frame::v1_frame(id, instr, params);
    let v2 = frame::v2_frame(id, instr, stuffing::stuff(params));
    let here = buf.skip(at);
    if at == 0 {
        assert(here =~= buf);
        if mode != Version::V2 && params.len() <= 253 && v1.is_prefix_of(here) {
            let rest = buf.skip(v1.len() as int);
            assert(v1 + rest =~= buf);
            lemma_v1_round_trip(mode, id, instr, params, rest);
        }
        if mode != Version::V1 && stuffing::stuff(params).len() <= 1014 && v2.is_prefix_of(here) {
            let rest = buf.skip(v2.len() as int);
            assert(v2 + rest =~= buf);
            lemma_v2_round_trip(mode, id, instr, params, rest);
        }
    } else {
        assert(buf.skip(1).skip(at - 1) =~= here);
        lemma_no_frame_is_passed_over(mode, buf.skip(1), at - 1, id, instr, params);
    }
}

/// What it means for a packet to be the contents of its own wire bytes.
pub open spec fn is_faithful(mode: Version, p: Packet) -> bool {
    match p.version {
        ProtocolVersion::V1 => {
            &&& mode != Version::V2
            &&& p.raw == frame::v1_frame(p.id, p.instr_or_err, p.params)
        },
        ProtocolVersion::V2 => {
            let wire_params = p.raw.subrange(8, p.raw.len() - 2);
            &&& mode != Version::V1
            &&& p.raw == frame::v2_frame(p.id, p.instr_or_err, wire_params)
            &&& p.params == stuffing::unstuff(wire_params)
            &&& p.raw.len() <= 1024
        },
    }
}

/// Whether `tail` is what `buf` ends with.
pub open spec fn is_tail_of(tail: Seq<u8>, buf: Seq<u8>) -> bool {
    tail.len() <= buf.len() && tail == buf.skip(buf.len() - tail.len())
}

/// Every packet that is found is the contents of a valid frame of a version that
/// is looked for. The frame lies in the buffer, and what is kept is exactly what
/// follows it.
pub proof fn lemma_found_packets_are_faithful(mode: Version, buf: Seq<u8>)
    ensures
        match frame::scan(mode, buf) {
            (Some(p), rest) => is_faithful(mode, p) && is_tail_of(p.raw + rest, buf),
            (None, rest) => is_tail_of(rest, buf),
        },
    decreases buf.len(),
{
    assert(buf.skip(0) =~= buf);
    if buf.len() < 2 || frame::verdict(mode, buf) is Incomplete {
    } else if frame::verdict(mode, buf) is Reject {
        let next = buf.skip(1);
        lemma_found_packets_are_faithful(mode, next);
        let kept = match frame::scan(mode, next) {
            (Some(p), rest) => p.raw + rest,
            (None, rest) => rest,
        };
        assert(next.skip(next.len() - kept.len()) =~= buf.skip(buf.len() - kept.len()));
    } else {
        lemma_complete_frame_is_in_front(mode, buf);
        lemma_complete_is_faithful(mode, buf);
        let p = frame::verdict(mode, buf)->Complete_0;
        assert(p.raw + buf.skip(p.raw.len() as int) =~= buf);
    }
}

/// The packet that a complete verdict names is the contents of its wire bytes.
proof fn lemma_complete_is_faithful(mode: Version, s: Seq<u8>)
    requires
        frame::verdict(mode, s) is Complete,
    ensures
        is_faithful(mode, frame::verdict(mode, s)->Complete_0),
{
    let p = frame::verdict(mode, s)->Complete_0;
    let wire = p.raw;
    match p.version {
        ProtocolVersion::V1 => {
            let body = seq![p.id, (p.params.len() + 2) as u8, p.instr_or_err] + p.params;
            assert(wire.subrange(2, wire.len() - 1) =~= body);
            assert(wire =~= frame::v1_frame(p.id, p.instr_or_err, p.params));
        },
        ProtocolVersion::V2 => {
            let wire_params = wire.subrange(8, wire.len() - 2);
            let len = wire_params.len() + 3;
            let body = seq![
                0xFFu8,
                0xFF,
                0xFD,
                0x00,
                p.id,
                (len % 256) as u8,
                (len / 256) as u8,
                p.instr_or_err,
            ] + wire_params;
            assert(wire.take(wire.len() - 2) =~= body);
            assert(wire =~= frame::v2_frame(p.id, p.instr_or_err, wire_params));
        },
    }
}

/// The sum of bytes changes by as much as the changed byte does.
proof fn lemma_sum_of_update(s: Seq<u8>, i: int, b: u8)
    requires
        0 <= i < s.len(),
    ensures
        bytes::byte_sum(s.update(i, b)) == bytes::byte_sum(s) - s[i] + b,
    decreases s.len(),
{
    let changed = s.update(i, b);
    if i == s.len() - 1 {
        assert(changed.drop_last() =~= s.drop_last());
    } else {
        assert(changed.drop_last() =~= s.drop_last().update(i, b));
        lemma_sum_of_update(s.drop_last(), i, b);
    }
}

/// A v1 frame of which one byte outside the header and the length was changed is
/// rejected.
pub proof fn lemma_v1_detects_changed_byte(
    mode: Version,
    id: u8,
    instr: u8,
    params: Seq<u8>,
    i: int,
    b: u8,
    rest: Seq<u8>,
)
    requires
        mode != Version::V2,
        params.len() <= 253,
        2 <= i < frame::v1_frame(id, instr, params).len(),
        i != 3,
        b != frame::v1_frame(id, instr, params)[i],
    ensures
        frame::verdict(mode, frame::v1_frame(id, instr, params).update(i, b) + rest) is Reject,
{
    let wire = frame::v1_frame(id, instr, params);
    let body = seq![id, (params.len() + 2) as u8, instr] + params;
    let changed = wire.update(i, b);
    let s = changed + rest;
    let n = wire.len() as int;
    assert(wire.subrange(2, n - 1) =~= body);
    assert(s.take(n) =~= changed);
    if i < n - 1 {
        assert(changed.subrange(2, n - 1) =~= body.update(i - 2, b));
        lemma_sum_of_update(body, i - 2, b);
    } else {
        assert(changed.subrange(2, n - 1) =~= body);
    }
}

/// A v2 frame of which one byte outside the header and the length was changed is
/// rejected.
pub proof fn lemma_v2_detects_changed_byte(
    mode: Version,
    id: u8,
    instr: u8,
    wire_params: Seq<u8>,
    i: int,
    b: u8,
    rest: Seq<u8>,
)
    requires
        mode != Version::V1,
        wire_params.len() + 10 <= 1024,
        4 <= i < frame::v2_frame(id, instr, wire_params).len(),
        i != 5 && i != 6,
        b != frame::v2_frame(id, instr, wire_params)[i],
    ensures
        frame::verdict(
            mode,
            frame::v2_frame(id, instr, wire_params).update(i, b) + rest,
        ) is Reject,
{
    let len = wire_params.len() + 3;
    let wire = frame::v2_frame(id, instr, wire_params);
    let n = wire.len() as int;
    let body = wire.take(n - 2);
    let changed = wire.update(i, b);
    let s = changed + rest;
    assert(body =~= seq![
        0xFFu8,
        0xFF,
        0xFD,
        0x00,
        id,
        (len % 256) as u8,
        (len / 256) as u8,
        instr,
    ] + wire_params);
    assert(s.take(n) =~= changed);
    if i < n - 2 {
        assert(changed.take(n - 2) =~= body.update(i, b));
        crc::lemma_crc_detects_changed_byte(body, i, b);
    } else {
        assert(changed.take(n - 2) =~= body);
    }
}

/// The frame of a v1 PING, which is also that of a status with error 0x01 and no
/// data.
pub proof fn lemma_ping_frame_layout(id: u8)
    ensures
        frame::v1_frame(id, 0x01, Seq::empty()) == seq![
            0xFFu8,
            0xFF,
            id,
            0x02,
            0x01,
            (255 - (id + 3) % 256) as u8,
        ],
{
    let body = seq![id, 0x02u8, 0x01u8];
    assert(seq![id, 2u8, 0x01u8] + Seq::<u8>::empty() =~= body);
    reveal_with_fuel(bytes::byte_sum, 4);
    assert(body.drop_last() =~= seq![id, 0x02u8]);
    assert(body.drop_last().drop_last() =~= seq![id]);
    assert(body.drop_last().drop_last().drop_last() =~= Seq::<u8>::empty());
    assert(bytes::byte_sum(body) == id + 3);
    assert(frame::v1_frame(id, 0x01, Seq::empty()) =~= seq![
        0xFFu8,
        0xFF,
        id,
        0x02,
        0x01,
        (255 - (id + 3) % 256) as u8,
    ]);
}

} // verus!
