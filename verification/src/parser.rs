//! Streaming framer for Dynamixel Protocol v1 and v2.
//!
//! Takes in raw bytes and gives out framed packets. It recovers from a bad
//! checksum or CRC and from bytes outside any frame by advancing one byte and
//! looking for the next header.
//!
//! The parser only frames. It does not interpret the instruction byte, nor tell
//! master from slave: that is the work of [`crate::decode`].

use std::collections::VecDeque;

use vstd::prelude::*;

use crate::bytes::{copy_range, join_le, sum_range};
pub use crate::crc::crc16_ibm;
use crate::frame::{self, Packet, Verdict, MAX_V2_FRAME};
use crate::frame_laws;
use crate::stuffing::v2_unstuff;

verus! {

/// Which protocol versions a parser accepts.
#[derive(Debug, Clone, Copy, PartialEq, Eq, Structural)]
pub enum Version {
    V1,
    V2,
    Auto,
}

/// The protocol version of a packet.
#[derive(Debug, Clone, Copy, PartialEq, Eq, Structural)]
pub enum ProtocolVersion {
    V1,
    V2,
}

/// A framed packet with a valid checksum.
#[derive(Debug, Clone, PartialEq, Eq)]
pub struct RawPacket {
    pub version: ProtocolVersion,
    /// ID byte (0xFE is the broadcast ID of both versions).
    pub id: u8,
    /// The instruction byte of an instruction packet. In a status packet, the
    /// error byte (v1) or 0x55 (v2).
    pub instr_or_err: u8,
    /// The parameters; for v2, without byte stuffing.
    pub params: Vec<u8>,
    /// The whole frame as it was on the wire (for v2, still stuffed).
    pub raw: Vec<u8>,
}

impl View for RawPacket {
    type V = Packet;

    open spec fn view(&self) -> Packet {
        Packet {
            version: self.version,
            id: self.id,
            instr_or_err: self.instr_or_err,
            params: self.params@,
            raw: self.raw@,
        }
    }
}

/// The framer: the bytes that are not yet part of a packet, and the versions that
/// it looks for.
#[derive(Debug)]
pub struct Parser {
    buf: VecDeque<u8>,
    mode: Version,
}

/// What a look at the front of the buffer found.
enum TryResult {
    Found(RawPacket),
    NeedMore,
    Bad,
}

/// Whether `t` reports `v`.
spec fn reports(t: TryResult, v: Verdict) -> bool {
    match t {
        TryResult::Found(pkt) => v == Verdict::Complete(pkt@),
        TryResult::NeedMore => v == Verdict::Incomplete,
        TryResult::Bad => v == Verdict::Reject,
    }
}

impl Parser {
    /// The bytes that are buffered.
    pub closed spec fn buffered(self) -> Seq<u8> {
        self.buf@
    }

    /// The versions that the parser looks for.
    pub closed spec fn mode(self) -> Version {
        self.mode
    }

    /// A parser with nothing buffered.
    pub fn new(mode: Version) -> (parser: Self)
        ensures
            parser.buffered() == Seq::<u8>::empty(),
            parser.mode() == mode,
    {
        Self { buf: VecDeque::with_capacity(512), mode }
    }

    /// Appends bytes to the buffer.
    pub fn feed(&mut self, bytes: &[u8])
        ensures
            final(self).buffered() == old(self).buffered() + bytes@,
            final(self).mode() == old(self).mode(),
    {
        let mut i: usize = 0;
        assert(bytes@.take(0) =~= Seq::<u8>::empty());
        assert(self.buf@ + bytes@.take(0) =~= self.buf@);
        while i < bytes.len()
            invariant
                i <= bytes@.len(),
                self.buf@ == old(self).buf@ + bytes@.take(i as int),
                self.mode == old(self).mode,
            decreases bytes@.len() - i,
        {
            self.buf.push_back(bytes[i]);
            assert(bytes@.take(i + 1) =~= bytes@.take(i as int).push(bytes@[i as int]));
            assert(self.buf@ =~= old(self).buf@ + bytes@.take(i + 1));
            i = i + 1;
        }
        assert(bytes@.take(i as int) =~= bytes@);
    }

    /// Drops the first `n` bytes of the buffer.
    fn discard(&mut self, n: usize)
        requires
            n <= old(self).buf@.len(),
        ensures
            final(self).buf@ == old(self).buf@.skip(n as int),
            final(self).mode == old(self).mode,
    {
        let mut i: usize = 0;
        assert(self.buf@.skip(0) =~= self.buf@);
        while i < n
            invariant
                i <= n <= old(self).buf@.len(),
                self.buf@ == old(self).buf@.skip(i as int),
                self.mode == old(self).mode,
            decreases n - i,
        {
            let _ = self.buf.pop_front();
            assert(self.buf@ =~= old(self).buf@.skip(i + 1));
            i = i + 1;
        }
    }

    /// Copies the first `n` bytes of the buffer.
    fn front(&self, n: usize) -> (out: Vec<u8>)
        requires
            n <= self.buf@.len(),
        ensures
            out@ == self.buf@.take(n as int),
    {
        let mut out: Vec<u8> = Vec::with_capacity(n);
        let mut i: usize = 0;
        while i < n
            invariant
                i <= n <= self.buf@.len(),
                out@ == self.buf@.take(i as int),
            decreases n - i,
        {
            out.push(self.buf[i]);
            assert(self.buf@.take(i + 1) =~= self.buf@.take(i as int).push(self.buf@[i as int]));
            i = i + 1;
        }
        out
    }

    /// Looks at the buffer as a v1 frame `FF FF ID LEN INSTR/ERR PARAMS.. CHECKSUM`
    /// and takes the frame out if it is whole and valid.
    fn try_v1(&mut self) -> (t: TryResult)
        ensures
            reports(t, frame::v1_verdict(old(self).buf@)),
            t matches TryResult::Found(pkt) ==> final(self).buf@ == old(self).buf@.skip(
                pkt.raw@.len() as int,
            ),
            !(t is Found) ==> final(self).buf@ == old(self).buf@,
            final(self).mode == old(self).mode,
    {
        if self.buf.len() < 4 {
            return TryResult::NeedMore;
        }
        let id: u8 = self.buf[2];
        let len: usize = self.buf[3] as usize;
        if len < 2 {
            return TryResult::Bad;
        }
        let total: usize = 4 + len;
        if self.buf.len() < total {
            return TryResult::NeedMore;
        }
        let frame = self.front(total);
        let expected: u8 = 255 - sum_range(&frame, 2, total - 1);
        let got: u8 = frame[total - 1];
        if expected != got {
            return TryResult::Bad;
        }
        let pkt = RawPacket {
            version: ProtocolVersion::V1,
            id,
            instr_or_err: frame[4],
            params: copy_range(&frame, 5, total - 1),
            raw: frame,
        };
        assert(pkt@ =~= frame::v1_packet(frame@));
        self.discard(total);
        TryResult::Found(pkt)
    }

    /// Looks at the buffer as a v2 frame
    /// `FF FF FD 00 ID LEN_L LEN_H INSTR PARAMS.. CRC_L CRC_H` and takes the frame
    /// out if it is whole and valid.
    fn try_v2(&mut self) -> (t: TryResult)
        ensures
            reports(t, frame::v2_verdict(old(self).buf@)),
            t matches TryResult::Found(pkt) ==> final(self).buf@ == old(self).buf@.skip(
                pkt.raw@.len() as int,
            ),
            !(t is Found) ==> final(self).buf@ == old(self).buf@,
            final(self).mode == old(self).mode,
    {
        if self.buf.len() < 7 {
            return TryResult::NeedMore;
        }
        let id: u8 = self.buf[4];
        let len: usize = join_le(self.buf[5], self.buf[6]) as usize;
        if len < 3 {
            return TryResult::Bad;
        }
        let total: usize = 7 + len;
        if total > MAX_V2_FRAME {
            return TryResult::Bad;
        }
        if self.buf.len() < total {
            return TryResult::NeedMore;
        }
        let frame = self.front(total);
        let crc_got: u16 = join_le(frame[total - 2], frame[total - 1]);
        let body = copy_range(&frame, 0, total - 2);
        assert(body@ =~= frame@.take(total - 2));
        let crc_calc: u16 = crc16_ibm(body.as_slice());
        if crc_got != crc_calc {
            return TryResult::Bad;
        }
        let wire_params = copy_range(&frame, 8, total - 2);
        let pkt = RawPacket {
            version: ProtocolVersion::V2,
            id,
            instr_or_err: frame[7],
            params: v2_unstuff(wire_params.as_slice()),
            raw: frame,
        };
        assert(pkt@ =~= frame::v2_packet(frame@));
        self.discard(total);
        TryResult::Found(pkt)
    }

    /// Tries to take one packet out of the buffer.
    ///
    /// Gives `Some` when a whole frame with a valid checksum is there, and `None`
    /// when more bytes are needed. It skips garbage and bad checksums, so calling
    /// it until it gives `None` takes out everything that can be taken out.
    pub fn next_packet(&mut self) -> (found: Option<RawPacket>)
        ensures
            (match found {
                Some(pkt) => Some(pkt@),
                None => None,
            }, final(self).buffered()) == frame::scan(old(self).mode(), old(self).buffered()),
            final(self).mode() == old(self).mode(),
    {
        loop
            invariant
                self.mode == old(self).mode,
                frame::scan(self.mode, self.buf@) == frame::scan(old(self).mode, old(self).buf@),
            decreases self.buf@.len(),
        {
            if self.buf.len() < 2 {
                return None;
            }
            let s = self.find_header();
            if s > 0 {
                proof {
                    frame_laws::lemma_scan_skips_rejected(self.mode, self.buf@, s as int);
                }
                self.discard(s);
            }
            if self.buf.len() < 2 {
                return None;
            }
            let is_v2 = self.buf.len() >= 4 && self.buf[2] == 0xFD && self.buf[3] == 0x00;
            let t = match (self.mode, is_v2) {
                (Version::V1, _) => self.try_v1(),
                (Version::V2, _) => if !is_v2 && self.buf.len() >= 4 {
                    TryResult::Bad
                } else {
                    self.try_v2()
                },
                (Version::Auto, true) => self.try_v2(),
                (Version::Auto, false) => self.try_v1(),
            };
            match t {
                TryResult::Found(pkt) => {
                    return Some(pkt);
                },
                TryResult::NeedMore => {
                    return None;
                },
                TryResult::Bad => {
                    self.discard(1);
                },
            }
        }
    }

    /// The position of the first `FF FF` in the buffer, or of the last byte if
    /// there is none.
    fn find_header(&self) -> (s: usize)
        requires
            self.buf@.len() >= 2,
        ensures
            s < self.buf@.len(),
            s == self.buf@.len() - 1 || frame::starts_with_header(self.buf@.skip(s as int)),
            forall|j: int| 0 <= j < s ==> !frame::starts_with_header(#[trigger] self.buf@.skip(j)),
    {
        let mut i: usize = 0;
        while i < self.buf.len() - 1
            invariant
                2 <= self.buf@.len(),
                i <= self.buf@.len() - 1,
                forall|j: int| 0 <= j < i ==> !frame::starts_with_header(#[trigger] self.buf@.skip(j)),
            decreases self.buf@.len() - i,
        {
            if self.buf[i] == 0xFF && self.buf[i + 1] == 0xFF {
                return i;
            }
            i = i + 1;
        }
        i
    }
}

} // verus!
