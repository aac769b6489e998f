//! Laws of the text output.

use vstd::prelude::*;

use crate::color;
use crate::frame::Packet;
use crate::line;
use crate::meaning::{self, Kind, Meaning};
use crate::parser::ProtocolVersion;
use crate::text;

verus! {

/// Whether a character does not occur in a text.
pub open spec fn avoids(s: Seq<char>, c: char) -> bool {
    forall|i: int| 0 <= i < s.len() ==> #[trigger] s[i] != c
}

/// The raw bytes come last: a line that shows them starts with the line that does
/// not.
pub proof fn lemma_dump_comes_last(colored: bool, ts: Seq<char>, m: Meaning)
    ensures
        line::line(colored, true, ts, m) == line::line(colored, false, ts, m) + "  "@ + line::dump(
            colored,
            meaning::packet_of(m).raw,
        ),
{
}

/// The value that a character has as a digit, by its code, or -1 for a character that
/// is no digit.
pub open spec fn digit_value(c: char) -> int {
    if '0' <= c && c <= '9' {
        c as int - '0' as int
    } else if 'A' <= c && c <= 'F' {
        c as int - 'A' as int + 10
    } else {
        -1
    }
}

/// The number that a text stands for, the most significant digit first.
pub open spec fn value_of(s: Seq<char>, base: int) -> int
    decreases s.len(),
{
    if s.len() == 0 {
        0
    } else {
        value_of(s.drop_last(), base) * base + digit_value(s.last())
    }
}

/// Whether a text holds nothing but digits of the base.
pub open spec fn all_digits(s: Seq<char>, base: int) -> bool {
    forall|i: int| 0 <= i < s.len() ==> 0 <= digit_value(#[trigger] s[i]) < base
}

/// A digit is written as the character that has its value.
pub proof fn lemma_digit_reads_back(d: nat)
    requires
        d < 16,
    ensures
        digit_value(text::digit(d)) == d,
{
    assert(d == 0 || d == 1 || d == 2 || d == 3 || d == 4 || d == 5 || d == 6 || d == 7 || d == 8
        || d == 9 || d == 10 || d == 11 || d == 12 || d == 13 || d == 14 || d == 15);
}

/// A number in base ten reads back as the number. It is made of digits, and starts
/// with a zero only if it is zero, which is a single digit.
pub proof fn lemma_decimal_reads_back(n: nat)
    ensures
        value_of(text::decimal(n), 10) == n,
        all_digits(text::decimal(n), 10),
        text::decimal(n).len() >= 1,
        text::decimal(n)[0] == '0' <==> n == 0,
        n == 0 ==> text::decimal(n).len() == 1,
    decreases n,
{
    let s = text::decimal(n);
    lemma_digit_reads_back(n % 10);
    if n < 10 {
        assert(s.drop_last() =~= Seq::<char>::empty());
        assert(value_of(s.drop_last(), 10) == 0);
    } else {
        lemma_decimal_reads_back(n / 10);
        assert(s.drop_last() =~= text::decimal(n / 10));
        assert(s[0] == text::decimal(n / 10)[0]);
        assert(all_digits(s, 10)) by {
            assert forall|i: int| 0 <= i < s.len() implies 0 <= digit_value(#[trigger] s[i])
                < 10 by {
                if i < s.len() - 1 {
                    assert(s[i] == text::decimal(n / 10)[i]);
                }
            }
        }
    }
}

/// A number in base sixteen has as many digits as were asked for, and reads back as
/// the number, up to what so many digits can hold.
pub proof fn lemma_hex_reads_back(n: nat, width: nat)
    ensures
        text::hex(n, width).len() == width,
        all_digits(text::hex(n, width), 16),
        value_of(text::hex(n, width), 16) == n as int % vstd::arithmetic::power::pow(16, width),
    decreases width,
{
    reveal(vstd::arithmetic::power::pow);
    let s = text::hex(n, width);
    if width > 0 {
        let less = (width - 1) as nat;
        let m = vstd::arithmetic::power::pow(16, less);
        lemma_hex_reads_back(n / 16, less);
        lemma_digit_reads_back(n % 16);
        assert(s.drop_last() =~= text::hex(n / 16, less));
        vstd::arithmetic::power::lemma_pow_positive(16, less);
        vstd::arithmetic::div_mod::lemma_mod_breakdown(n as int, 16, m);
        assert(vstd::arithmetic::power::pow(16, width) == 16 * m);
        assert(all_digits(s, 16)) by {
            assert forall|i: int| 0 <= i < s.len() implies 0 <= digit_value(#[trigger] s[i])
                < 16 by {
                if i < s.len() - 1 {
                    assert(s[i] == text::hex(n / 16, less)[i]);
                }
            }
        }
    }
}

/// Whether two digits of base sixteen that stand for the byte are at a position.
pub open spec fn has_byte_at(s: Seq<char>, at: int, b: u8) -> bool {
    let (high, low) = (digit_value(s[at]), digit_value(s[at + 1]));
    0 <= high < 16 && 0 <= low < 16 && 16 * high + low == b
}

/// Whether a space is at a position.
pub open spec fn has_space_at(s: Seq<char>, at: int) -> bool {
    s[at] == ' '
}

/// Bytes are shown as two digits each, with one space between one byte and the next
/// and nothing else, and every pair of digits reads back as its byte.
pub proof fn lemma_hex_bytes_read_back(s: Seq<u8>)
    ensures
        s.len() == 0 ==> text::hex_bytes(s).len() == 0,
        s.len() > 0 ==> text::hex_bytes(s).len() == 3 * s.len() - 1,
        forall|i: int|
            0 <= i < s.len() ==> #[trigger] has_byte_at(text::hex_bytes(s), 3 * i, s[i]),
        forall|i: int|
            0 <= i < s.len() - 1 ==> #[trigger] has_space_at(text::hex_bytes(s), 3 * i + 2),
    decreases s.len(),
{
    reveal_strlit(" ");
    let f = |b: u8| text::hex(b as nat, 2);
    let out = text::hex_bytes(s);
    if s.len() > 0 {
        let before = s.drop_last();
        let part = text::hex(s.last() as nat, 2);
        lemma_hex_bytes_read_back(before);
        reveal_with_fuel(text::hex, 3);
        lemma_digit_reads_back(s.last() as nat % 16);
        lemma_digit_reads_back(s.last() as nat / 16 % 16);
        assert(part =~= seq![
            text::digit(s.last() as nat / 16 % 16),
            text::digit(s.last() as nat % 16),
        ]);
        assert(s.map_values(f).drop_last() =~= before.map_values(f));
        if s.len() == 1 {
            assert(out =~= part);
        } else {
            assert(out =~= text::hex_bytes(before) + " "@ + part);
        }
        assert forall|i: int| 0 <= i < s.len() implies #[trigger] has_byte_at(
            out,
            3 * i,
            s[i],
        ) by {
            if i < s.len() - 1 {
                assert(before[i] == s[i]);
                assert(has_byte_at(text::hex_bytes(before), 3 * i, before[i]));
                assert(out[3 * i] == text::hex_bytes(before)[3 * i]);
                assert(out[3 * i + 1] == text::hex_bytes(before)[3 * i + 1]);
            }
        }
        assert forall|i: int| 0 <= i < s.len() - 1 implies #[trigger] has_space_at(
            out,
            3 * i + 2,
        ) by {
            if i < s.len() - 2 {
                assert(has_space_at(text::hex_bytes(before), 3 * i + 2));
                assert(out[3 * i + 2] == text::hex_bytes(before)[3 * i + 2]);
            }
        }
    }
}

/// The dump tells frames apart: bytes that look the same are the same.
pub proof fn lemma_hex_bytes_tell_apart(a: Seq<u8>, b: Seq<u8>)
    requires
        text::hex_bytes(a) == text::hex_bytes(b),
    ensures
        a == b,
{
    lemma_hex_bytes_read_back(a);
    lemma_hex_bytes_read_back(b);
    assert(a.len() == b.len());
    assert forall|i: int| 0 <= i < a.len() implies a[i] == b[i] by {
        assert(has_byte_at(text::hex_bytes(a), 3 * i, a[i]));
        assert(has_byte_at(text::hex_bytes(b), 3 * i, b[i]));
    }
    assert(a =~= b);
}

/// One more part is added to joined texts behind a separator, unless it is the first.
pub proof fn lemma_join_grows(parts: Seq<Seq<char>>, part: Seq<char>, separator: Seq<char>)
    ensures
        text::join(Seq::empty(), separator) == Seq::<char>::empty(),
        parts.len() == 0 ==> text::join(parts.push(part), separator) == part,
        parts.len() > 0 ==> text::join(parts.push(part), separator) == text::join(parts, separator)
            + separator + part,
{
    assert(parts.push(part).drop_last() =~= parts);
}

/// A list of bytes grows in front of its closing bracket, by a comma and a space,
/// unless it is empty, and by the next number.
pub proof fn lemma_list_grows(s: Seq<u8>, b: u8)
    ensures
        text::list_of_bytes(Seq::empty()) == "[]"@,
        text::list_of_bytes(s).last() == ']',
        text::list_of_bytes(s.push(b)) == text::list_of_bytes(s).drop_last() + (if s.len() == 0 {
            Seq::empty()
        } else {
            seq![',', ' ']
        }) + text::decimal(b as nat).push(']'),
{
    reveal_strlit("[");
    reveal_strlit("]");
    reveal_strlit("[]");
    reveal_strlit(", ");
    let f = |x: u8| text::decimal(x as nat);
    let none = Seq::<u8>::empty();
    assert(none.map_values(f) =~= Seq::<Seq<char>>::empty());
    assert(text::list_of_bytes(none) =~= "[]"@);
    assert(s.push(b).map_values(f) =~= s.map_values(f).push(text::decimal(b as nat)));
    lemma_join_grows(s.map_values(f), text::decimal(b as nat), ", "@);
    if s.len() == 0 {
        assert(s =~= none);
    }
    assert(", "@ =~= seq![',', ' ']);
    assert(text::list_of_bytes(s).drop_last() =~= "["@ + text::join(s.map_values(f), ", "@));
    assert(text::list_of_bytes(s.push(b)) =~= text::list_of_bytes(s).drop_last() + (if s.len()
        == 0 {
        Seq::empty()
    } else {
        seq![',', ' ']
    }) + text::decimal(b as nat).push(']'));
}

/// Filling up a text keeps it whole at one end, adds only spaces at the other, and
/// gives exactly the width unless the text is longer.
pub proof fn lemma_padding_adds_spaces(s: Seq<char>, width: nat)
    ensures
        ({
            let right = text::pad_right(s, width);
            let left = text::pad_left(s, width);
            let n = s.len() as int;
            &&& right.len() == if n < width {
                width as int
            } else {
                n
            }
            &&& left.len() == right.len()
            &&& right.take(n) == s
            &&& left.skip(left.len() - n) == s
            &&& forall|i: int| n <= i < right.len() ==> #[trigger] right[i] == ' '
            &&& forall|i: int| 0 <= i < left.len() - n ==> #[trigger] left[i] == ' '
        }),
{
    let right = text::pad_right(s, width);
    let left = text::pad_left(s, width);
    let n = s.len() as int;
    assert(right.take(n) =~= s);
    assert(left.skip(left.len() - n) =~= s);
}

/// The line without the raw bytes is made of the time, who sends, the version and what
/// is said.
#[verifier::spinoff_prover]
proof fn lemma_line_groups(colored: bool, ts: Seq<char>, m: Meaning, middle: Seq<char>)
    requires
        middle == "] "@ + line::sender(colored, m) + " "@ + line::paint(
            colored,
            color::dim(),
            line::version_text(meaning::packet_of(m).version),
        ) + "  "@,
    ensures
        line::line(colored, false, ts, m) == "["@ + ts + middle + line::body(colored, m),
{
    assert(line::line(colored, false, ts, m) =~= "["@ + ts + middle + line::body(colored, m));
}

/// The line of an instruction starts with the time in square brackets, the master and
/// the protocol version.
#[verifier::spinoff_prover]
pub proof fn lemma_master_line_starts(ts: Seq<char>, m: Meaning)
    requires
        m is Master,
    ensures
        ({
            line::line(false, false, ts, m) == "["@ + ts + (match meaning::packet_of(m).version {
                ProtocolVersion::V1 => "] MASTER → v1  "@,
                ProtocolVersion::V2 => "] MASTER → v2  "@,
            }) + line::body(false, m)
        }),
{
    let middle = "] "@ + line::sender(false, m) + " "@ + line::paint(
        false,
        color::dim(),
        line::version_text(meaning::packet_of(m).version),
    ) + "  "@;
    assert(middle =~= (match meaning::packet_of(m).version {
        ProtocolVersion::V1 => "] MASTER → v1  "@,
        ProtocolVersion::V2 => "] MASTER → v2  "@,
    })) by {
        reveal_strlit("] MASTER → v1  ");
        reveal_strlit("] ");
        reveal_strlit("MASTER →");
        reveal_strlit(" ");
        reveal_strlit("v1");
        reveal_strlit("  ");
        reveal_strlit("] MASTER → v2  ");
        reveal_strlit("v2");
    }
    lemma_line_groups(false, ts, m, middle);
}

/// The line of a status starts with the time in square brackets, the ID of the slave in
/// three columns and the protocol version.
#[verifier::spinoff_prover]
pub proof fn lemma_slave_line_starts(ts: Seq<char>, m: Meaning)
    requires
        m is Slave,
    ensures
        ({
            let id = text::pad_left(text::decimal(meaning::packet_of(m).id as nat), 3);
            line::line(false, false, ts, m) == "["@ + ts + (match meaning::packet_of(m).version {
                ProtocolVersion::V1 => "] ID "@ + id + " ← v1  "@,
                ProtocolVersion::V2 => "] ID "@ + id + " ← v2  "@,
            }) + line::body(false, m)
        }),
{
    let id = text::pad_left(text::decimal(meaning::packet_of(m).id as nat), 3);
    let middle = "] "@ + line::sender(false, m) + " "@ + line::paint(
        false,
        color::dim(),
        line::version_text(meaning::packet_of(m).version),
    ) + "  "@;
    assert(middle =~= (match meaning::packet_of(m).version {
        ProtocolVersion::V1 => "] ID "@ + id + " ← v1  "@,
        ProtocolVersion::V2 => "] ID "@ + id + " ← v2  "@,
    })) by {
        reveal_strlit("] ID ");
        reveal_strlit(" ← v1  ");
        reveal_strlit("] ");
        reveal_strlit("ID ");
        reveal_strlit(" ←");
        reveal_strlit(" ");
        reveal_strlit("v1");
        reveal_strlit("  ");
        reveal_strlit(" ← v2  ");
        reveal_strlit("v2");
    }
    lemma_line_groups(false, ts, m, middle);
}

/// The line of a packet of unknown meaning starts with the time in square brackets, a
/// word that says so and the protocol version.
#[verifier::spinoff_prover]
pub proof fn lemma_unknown_line_starts(ts: Seq<char>, m: Meaning)
    requires
        m is Unknown,
    ensures
        ({
            line::line(false, false, ts, m) == "["@ + ts + (match meaning::packet_of(m).version {
                ProtocolVersion::V1 => "] UNKNOWN  v1  "@,
                ProtocolVersion::V2 => "] UNKNOWN  v2  "@,
            }) + line::body(false, m)
        }),
{
    let middle = "] "@ + line::sender(false, m) + " "@ + line::paint(
        false,
        color::dim(),
        line::version_text(meaning::packet_of(m).version),
    ) + "  "@;
    assert(middle =~= (match meaning::packet_of(m).version {
        ProtocolVersion::V1 => "] UNKNOWN  v1  "@,
        ProtocolVersion::V2 => "] UNKNOWN  v2  "@,
    })) by {
        reveal_strlit("] UNKNOWN  v1  ");
        reveal_strlit("] ");
        reveal_strlit("UNKNOWN ");
        reveal_strlit(" ");
        reveal_strlit("v1");
        reveal_strlit("  ");
        reveal_strlit("] UNKNOWN  v2  ");
        reveal_strlit("v2");
    }
    lemma_line_groups(false, ts, m, middle);
}

/// With color, the line of an instruction starts as it does without, the sender bold in
/// cyan and the version dim.
#[verifier::spinoff_prover]
pub proof fn lemma_colored_master_line_starts(ts: Seq<char>, m: Meaning)
    requires
        m is Master,
    ensures
        ({
            line::line(true, false, ts, m) == "["@ + ts + (match meaning::packet_of(m).version {
                ProtocolVersion::V1 => "] \x1b[36;1mMASTER →\x1b[0m \x1b[2mv1\x1b[0m  "@,
                ProtocolVersion::V2 => "] \x1b[36;1mMASTER →\x1b[0m \x1b[2mv2\x1b[0m  "@,
            }) + line::body(true, m)
        }),
{
    let middle = "] "@ + line::sender(true, m) + " "@ + line::paint(
        true,
        color::dim(),
        line::version_text(meaning::packet_of(m).version),
    ) + "  "@;
    assert(middle =~= (match meaning::packet_of(m).version {
        ProtocolVersion::V1 => "] \x1b[36;1mMASTER →\x1b[0m \x1b[2mv1\x1b[0m  "@,
        ProtocolVersion::V2 => "] \x1b[36;1mMASTER →\x1b[0m \x1b[2mv2\x1b[0m  "@,
    })) by {
        reveal_strlit("] \x1b[36;1mMASTER →\x1b[0m \x1b[2mv1\x1b[0m  ");
        reveal_strlit("] ");
        reveal_strlit("\x1b[36;1m");
        reveal_strlit("MASTER →");
        reveal_strlit("\x1b[0m");
        reveal_strlit(" ");
        reveal_strlit("\x1b[2m");
        reveal_strlit("v1");
        reveal_strlit("  ");
        reveal_strlit("] \x1b[36;1mMASTER →\x1b[0m \x1b[2mv2\x1b[0m  ");
        reveal_strlit("v2");
    }
    lemma_line_groups(true, ts, m, middle);
}

/// With color, the line of a status starts as it does without, the sender bold in
/// green and the version dim.
#[verifier::spinoff_prover]
pub proof fn lemma_colored_slave_line_starts(ts: Seq<char>, m: Meaning)
    requires
        m is Slave,
    ensures
        ({
            let id = text::pad_left(text::decimal(meaning::packet_of(m).id as nat), 3);
            line::line(true, false, ts, m) == "["@ + ts + (match meaning::packet_of(m).version {
                ProtocolVersion::V1 => "] \x1b[32;1mID "@ + id + " ←\x1b[0m \x1b[2mv1\x1b[0m  "@,
                ProtocolVersion::V2 => "] \x1b[32;1mID "@ + id + " ←\x1b[0m \x1b[2mv2\x1b[0m  "@,
            }) + line::body(true, m)
        }),
{
    let id = text::pad_left(text::decimal(meaning::packet_of(m).id as nat), 3);
    let middle = "] "@ + line::sender(true, m) + " "@ + line::paint(
        true,
        color::dim(),
        line::version_text(meaning::packet_of(m).version),
    ) + "  "@;
    assert(middle =~= (match meaning::packet_of(m).version {
        ProtocolVersion::V1 => "] \x1b[32;1mID "@ + id + " ←\x1b[0m \x1b[2mv1\x1b[0m  "@,
        ProtocolVersion::V2 => "] \x1b[32;1mID "@ + id + " ←\x1b[0m \x1b[2mv2\x1b[0m  "@,
    })) by {
        reveal_strlit("] \x1b[32;1mID ");
        reveal_strlit(" ←\x1b[0m \x1b[2mv1\x1b[0m  ");
        reveal_strlit("] ");
        reveal_strlit("\x1b[32;1m");
        reveal_strlit("ID ");
        reveal_strlit(" ←");
        reveal_strlit("\x1b[0m");
        reveal_strlit(" ");
        reveal_strlit("\x1b[2m");
        reveal_strlit("v1");
        reveal_strlit("  ");
        reveal_strlit(" ←\x1b[0m \x1b[2mv2\x1b[0m  ");
        reveal_strlit("v2");
    }
    lemma_line_groups(true, ts, m, middle);
}

/// With color, the line of a packet of unknown meaning starts as it does without, the sender bold in
/// yellow and the version dim.
#[verifier::spinoff_prover]
pub proof fn lemma_colored_unknown_line_starts(ts: Seq<char>, m: Meaning)
    requires
        m is Unknown,
    ensures
        ({
            line::line(true, false, ts, m) == "["@ + ts + (match meaning::packet_of(m).version {
                ProtocolVersion::V1 => "] \x1b[33;1mUNKNOWN \x1b[0m \x1b[2mv1\x1b[0m  "@,
                ProtocolVersion::V2 => "] \x1b[33;1mUNKNOWN \x1b[0m \x1b[2mv2\x1b[0m  "@,
            }) + line::body(true, m)
        }),
{
    let middle = "] "@ + line::sender(true, m) + " "@ + line::paint(
        true,
        color::dim(),
        line::version_text(meaning::packet_of(m).version),
    ) + "  "@;
    assert(middle =~= (match meaning::packet_of(m).version {
        ProtocolVersion::V1 => "] \x1b[33;1mUNKNOWN \x1b[0m \x1b[2mv1\x1b[0m  "@,
        ProtocolVersion::V2 => "] \x1b[33;1mUNKNOWN \x1b[0m \x1b[2mv2\x1b[0m  "@,
    })) by {
        reveal_strlit("] \x1b[33;1mUNKNOWN \x1b[0m \x1b[2mv1\x1b[0m  ");
        reveal_strlit("] ");
        reveal_strlit("\x1b[33;1m");
        reveal_strlit("UNKNOWN ");
        reveal_strlit("\x1b[0m");
        reveal_strlit(" ");
        reveal_strlit("\x1b[2m");
        reveal_strlit("v1");
        reveal_strlit("  ");
        reveal_strlit("] \x1b[33;1mUNKNOWN \x1b[0m \x1b[2mv2\x1b[0m  ");
        reveal_strlit("v2");
    }
    lemma_line_groups(true, ts, m, middle);
}

/// An instruction is its name in a column of eleven characters, an arrow, whom it
/// addresses, and what it asks for. All devices at once are shown by their ID in base
/// sixteen.
#[verifier::spinoff_prover]
pub proof fn lemma_instruction_layout(colored: bool, packet: Packet, name: Seq<char>, kind: Kind)
    ensures
        ({
            let m = Meaning::Master { packet, name, kind };
            let id = text::pad_left(text::decimal(packet.id as nat), 3);
            let column = text::pad_right(name, 11);
            line::body(colored, m) == column + (if packet.id == 0xFE {
                " → 0xFE"@
            } else {
                " → ID "@ + id
            }) + line::details(kind, packet.params)
        }),
{
    let id = text::pad_left(text::decimal(packet.id as nat), 3);
    let column = text::pad_right(name, 11);
    let rest = line::details(kind, packet.params);
    assert(" → 0xFE"@ =~= " → "@ + "0xFE"@) by {
        reveal_strlit(" → 0xFE");
        reveal_strlit(" → ");
        reveal_strlit("0xFE");
    }
    assert(" → ID "@ =~= " → "@ + "ID "@) by {
        reveal_strlit(" → ID ");
        reveal_strlit(" → ");
        reveal_strlit("ID ");
    }
    let m = Meaning::Master { packet, name, kind };
    if packet.id == 0xFE {
        assert(line::body(colored, m) =~= column + " → 0xFE"@ + rest);
    } else {
        assert(line::body(colored, m) =~= column + (" → ID "@ + id) + rest);
    }
}

/// What an instruction asks for: an address has four digits of base sixteen, a length
/// is in base ten, and data are bytes. What is not understood is shown as it came.
#[verifier::spinoff_prover]
pub proof fn lemma_details_layout(
    addr: u16,
    len: u16,
    data: Seq<u8>,
    sync: Seq<(u8, Seq<u8>)>,
    reads: Seq<(u8, u16, u16)>,
    writes: Seq<(u8, u16, Seq<u8>)>,
    params: Seq<u8>,
)
    ensures
        ({
            let a = "  addr=0x"@ + text::hex(addr as nat, 4);
            let n = text::decimal(len as nat);
            &&& line::details(Kind::Ping, params).len() == 0
            &&& line::details(Kind::Action, params).len() == 0
            &&& line::details(Kind::FactoryReset, params).len() == 0
            &&& line::details(Kind::Reboot, params).len() == 0
            &&& line::details(Kind::Read { addr, len }, params) == a + " len="@ + n
            &&& line::details(Kind::Write { addr, data }, params) == a + " data="@
                + text::hex_bytes(data)
            &&& line::details(Kind::RegWrite { addr, data }, params) == a + " data="@
                + text::hex_bytes(data)
            &&& line::details(Kind::SyncRead { addr, len, ids: data }, params) == a + " len="@ + n
                + " ids="@ + text::list_of_bytes(data)
            &&& line::details(Kind::SyncWrite { addr, len, entries: sync }, params) == a + " len="@
                + n + " "@ + line::sync_items(sync)
            &&& line::details(Kind::BulkRead { entries: reads }, params) == "  "@
                + line::bulk_read_items(reads)
            &&& line::details(Kind::BulkWrite { entries: writes }, params) == "  "@
                + line::bulk_write_items(writes)
            &&& line::details(Kind::Other, params) == "  params="@ + text::hex_bytes(params)
        }),
{
    let a = "  addr=0x"@ + text::hex(addr as nat, 4);
    let n = text::decimal(len as nat);
    assert("  addr=0x"@ =~= "  "@ + "addr=0x"@) by {
        reveal_strlit("  addr=0x");
        reveal_strlit("  ");
        reveal_strlit("addr=0x");
    }
    assert(a =~= "  "@ + line::address(addr));
}

/// The entries of a sync write are shown one after the other, each ID with its bytes.
pub proof fn lemma_sync_items_grow(entries: Seq<(u8, Seq<u8>)>, id: u8, data: Seq<u8>)
    ensures
        line::sync_items(Seq::empty()).len() == 0,
        line::sync_items(entries.push((id, data))) == line::sync_items(entries) + "["@
            + text::decimal(id as nat) + "="@ + text::hex_bytes(data) + "] "@,
{
    assert(entries.push((id, data)).drop_last() =~= entries);
}

/// The entries of a bulk read are shown one after the other, each ID with its address
/// and its length.
pub proof fn lemma_bulk_read_items_grow(
    entries: Seq<(u8, u16, u16)>,
    id: u8,
    addr: u16,
    len: u16,
)
    ensures
        line::bulk_read_items(Seq::empty()).len() == 0,
        line::bulk_read_items(entries.push((id, addr, len))) == line::bulk_read_items(entries)
            + "[ID "@ + text::decimal(id as nat) + " addr=0x"@ + text::hex(addr as nat, 4)
            + " len="@ + text::decimal(len as nat) + "] "@,
{
    assert(entries.push((id, addr, len)).drop_last() =~= entries);
    assert(" addr=0x"@ =~= " "@ + "addr=0x"@) by {
        reveal_strlit(" addr=0x");
        reveal_strlit(" ");
        reveal_strlit("addr=0x");
    }
    assert(line::bulk_read_items(entries.push((id, addr, len))) =~= line::bulk_read_items(entries)
        + "[ID "@ + text::decimal(id as nat) + " addr=0x"@ + text::hex(addr as nat, 4) + " len="@
        + text::decimal(len as nat) + "] "@);
}

/// The entries of a bulk write are shown one after the other, each ID with its address
/// and its bytes.
pub proof fn lemma_bulk_write_items_grow(
    entries: Seq<(u8, u16, Seq<u8>)>,
    id: u8,
    addr: u16,
    data: Seq<u8>,
)
    ensures
        line::bulk_write_items(Seq::empty()).len() == 0,
        line::bulk_write_items(entries.push((id, addr, data))) == line::bulk_write_items(entries)
            + "[ID "@ + text::decimal(id as nat) + " addr=0x"@ + text::hex(addr as nat, 4) + " "@
            + text::hex_bytes(data) + "] "@,
{
    assert(entries.push((id, addr, data)).drop_last() =~= entries);
    assert(" addr=0x"@ =~= " "@ + "addr=0x"@) by {
        reveal_strlit(" addr=0x");
        reveal_strlit(" ");
        reveal_strlit("addr=0x");
    }
    assert(line::bulk_write_items(entries.push((id, addr, data))) =~= line::bulk_write_items(
        entries,
    ) + "[ID "@ + text::decimal(id as nat) + " addr=0x"@ + text::hex(addr as nat, 4) + " "@
        + text::hex_bytes(data) + "] "@);
}

/// A status is `ok` exactly when its error is zero. Otherwise it shows the error byte,
/// bold in red if color is on, with the names of the error, if it has any, in
/// parentheses. The data follow.
#[verifier::spinoff_prover]
pub proof fn lemma_status_layout(
    packet: Packet,
    error: u8,
    error_flags: Seq<Seq<char>>,
    data: Seq<u8>,
)
    ensures
        ({
            let m = Meaning::Slave { packet, error, error_flags, data };
            let shown = text::hex(error as nat, 2) + (if error_flags.len() == 0 {
                Seq::empty()
            } else {
                seq!['('] + text::join(error_flags, seq!['|']) + seq![')']
            });
            let bytes = text::hex_bytes(data);
            if error == 0 {
                &&& line::body(false, m) == "STATUS       ok  data="@ + bytes
                &&& line::body(true, m) == "STATUS       ok  data="@ + bytes
            } else {
                &&& line::body(false, m) == "STATUS       err=0x"@ + shown + "  data="@ + bytes
                &&& line::body(true, m) == "STATUS       \x1b[31;1merr=0x"@ + shown
                    + "\x1b[0m  data="@ + bytes
            }
        }),
{
    let m = Meaning::Slave { packet, error, error_flags, data };
    let names = if error_flags.len() == 0 {
        Seq::empty()
    } else {
        seq!['('] + text::join(error_flags, seq!['|']) + seq![')']
    };
    let shown = text::hex(error as nat, 2) + names;
    let bytes = text::hex_bytes(data);
    assert("("@ =~= seq!['('] && "|"@ =~= seq!['|'] && ")"@ =~= seq![')']) by {
        reveal_strlit("(");
        reveal_strlit("|");
        reveal_strlit(")");
    }
    assert("STATUS       ok  data="@ =~= "STATUS       "@ + "ok"@ + "  data="@) by {
        reveal_strlit("STATUS       ok  data=");
        reveal_strlit("STATUS       ");
        reveal_strlit("ok");
        reveal_strlit("  data=");
    }
    assert("STATUS       err=0x"@ =~= "STATUS       "@ + "err=0x"@) by {
        reveal_strlit("STATUS       err=0x");
        reveal_strlit("STATUS       ");
        reveal_strlit("err=0x");
    }
    assert("STATUS       \x1b[31;1merr=0x"@ =~= "STATUS       "@ + "\x1b[31;1m"@ + "err=0x"@) by {
        reveal_strlit("STATUS       \x1b[31;1merr=0x");
        reveal_strlit("STATUS       ");
        reveal_strlit("\x1b[31;1m");
        reveal_strlit("err=0x");
    }
    assert("\x1b[0m  data="@ =~= "\x1b[0m"@ + "  data="@) by {
        reveal_strlit("\x1b[0m  data=");
        reveal_strlit("\x1b[0m");
        reveal_strlit("  data=");
    }
    if error == 0 {
        assert(line::body(false, m) =~= "STATUS       ok  data="@ + bytes);
        assert(line::body(true, m) =~= "STATUS       ok  data="@ + bytes);
    } else {
        let e = "err=0x"@ + text::hex(error as nat, 2) + names;
        assert(e =~= "err=0x"@ + shown);
        assert(line::body(false, m) =~= "STATUS       err=0x"@ + shown + "  data="@ + bytes);
        assert(line::body(true, m) =~= "STATUS       \x1b[31;1merr=0x"@ + shown
            + "\x1b[0m  data="@ + bytes);
    }
}

/// A packet of unknown meaning shows its ID in base ten, its byte in base sixteen and
/// its parameters.
#[verifier::spinoff_prover]
pub proof fn lemma_unknown_layout(colored: bool, packet: Packet)
    ensures
        line::body(colored, Meaning::Unknown { packet }) == "?            id="@ + text::decimal(
            packet.id as nat,
        ) + " byte=0x"@ + text::hex(packet.instr_or_err as nat, 2) + " params="@
            + text::hex_bytes(packet.params),
{
}

/// The raw bytes behind a text.
#[verifier::spinoff_prover]
proof fn lemma_dump_groups(head: Seq<char>, raw: Seq<u8>)
    ensures
        head + "  "@ + line::dump(false, raw) == head + "  ["@ + text::hex_bytes(raw) + "]"@,
        head + "  "@ + line::dump(true, raw) == head + "  \x1b[2m["@ + text::hex_bytes(raw)
            + "]\x1b[0m"@,
{
    let bytes = text::hex_bytes(raw);
    assert("  ["@ =~= "  "@ + "["@) by {
        reveal_strlit("  [");
        reveal_strlit("  ");
        reveal_strlit("[");
    }
    assert("  \x1b[2m["@ =~= "  "@ + "\x1b[2m"@ + "["@) by {
        reveal_strlit("  \x1b[2m[");
        reveal_strlit("  ");
        reveal_strlit("\x1b[2m");
        reveal_strlit("[");
    }
    assert("]\x1b[0m"@ =~= "]"@ + "\x1b[0m"@) by {
        reveal_strlit("]\x1b[0m");
        reveal_strlit("]");
        reveal_strlit("\x1b[0m");
    }
    assert(head + "  "@ + line::dump(false, raw) =~= head + "  ["@ + bytes + "]"@);
    assert(head + "  "@ + line::dump(true, raw) =~= head + "  \x1b[2m["@ + bytes + "]\x1b[0m"@);
}

/// The raw bytes stand in square brackets, dim if color is on, behind two spaces at
/// the end of the line.
#[verifier::spinoff_prover]
pub proof fn lemma_dump_layout(ts: Seq<char>, m: Meaning)
    ensures
        ({
            let bytes = text::hex_bytes(meaning::packet_of(m).raw);
            &&& line::line(false, true, ts, m) == line::line(false, false, ts, m) + "  ["@ + bytes
                + "]"@
            &&& line::line(true, true, ts, m) == line::line(true, false, ts, m)
                + "  \x1b[2m["@ + bytes + "]\x1b[0m"@
        }),
{
    let raw = meaning::packet_of(m).raw;
    lemma_dump_comes_last(false, ts, m);
    lemma_dump_comes_last(true, ts, m);
    lemma_dump_groups(line::line(false, false, ts, m), raw);
    lemma_dump_groups(line::line(true, false, ts, m), raw);
}

proof fn lemma_decimal_avoids(n: nat, c: char)
    requires
        c < ' ',
    ensures
        avoids(text::decimal(n), c),
    decreases n,
{
    if n >= 10 {
        lemma_decimal_avoids(n / 10, c);
    }
}

proof fn lemma_hex_avoids(n: nat, width: nat, c: char)
    requires
        c < ' ',
    ensures
        avoids(text::hex(n, width), c),
    decreases width,
{
    if width > 0 {
        lemma_hex_avoids(n / 16, (width - 1) as nat, c);
    }
}

proof fn lemma_join_avoids(parts: Seq<Seq<char>>, separator: Seq<char>, c: char)
    requires
        avoids(separator, c),
        forall|i: int| 0 <= i < parts.len() ==> avoids(#[trigger] parts[i], c),
    ensures
        avoids(text::join(parts, separator), c),
    decreases parts.len(),
{
    if parts.len() > 1 {
        assert forall|i: int| 0 <= i < parts.drop_last().len() implies avoids(
            #[trigger] parts.drop_last()[i],
            c,
        ) by {
            assert(parts.drop_last()[i] == parts[i]);
        }
        lemma_join_avoids(parts.drop_last(), separator, c);
    }
}

proof fn lemma_bytes_avoid(s: Seq<u8>, c: char)
    requires
        c < ' ',
    ensures
        avoids(text::hex_bytes(s), c),
        avoids(text::list_of_bytes(s), c),
{
    reveal_strlit(" ");
    reveal_strlit(", ");
    reveal_strlit("[");
    reveal_strlit("]");
    let hexes = s.map_values(|b: u8| text::hex(b as nat, 2));
    let decimals = s.map_values(|b: u8| text::decimal(b as nat));
    assert forall|i: int| 0 <= i < hexes.len() implies avoids(#[trigger] hexes[i], c) by {
        lemma_hex_avoids(s[i] as nat, 2, c);
    }
    assert forall|i: int| 0 <= i < decimals.len() implies avoids(#[trigger] decimals[i], c) by {
        lemma_decimal_avoids(s[i] as nat, c);
    }
    lemma_join_avoids(hexes, " "@, c);
    lemma_join_avoids(decimals, ", "@, c);
}

proof fn lemma_address_avoids(addr: u16, c: char)
    requires
        c < ' ',
    ensures
        avoids(line::address(addr), c),
{
    reveal_strlit("addr=0x");
    lemma_hex_avoids(addr as nat, 4, c);
}

proof fn lemma_sync_items_avoid(entries: Seq<(u8, Seq<u8>)>, c: char)
    requires
        c < ' ',
    ensures
        avoids(line::sync_items(entries), c),
    decreases entries.len(),
{
    if entries.len() > 0 {
        reveal_strlit("[");
        reveal_strlit("=");
        reveal_strlit("] ");
        lemma_sync_items_avoid(entries.drop_last(), c);
        lemma_decimal_avoids(entries.last().0 as nat, c);
        lemma_bytes_avoid(entries.last().1, c);
    }
}

proof fn lemma_bulk_read_items_avoid(entries: Seq<(u8, u16, u16)>, c: char)
    requires
        c < ' ',
    ensures
        avoids(line::bulk_read_items(entries), c),
    decreases entries.len(),
{
    if entries.len() > 0 {
        reveal_strlit("[ID ");
        reveal_strlit(" ");
        reveal_strlit(" len=");
        reveal_strlit("] ");
        lemma_bulk_read_items_avoid(entries.drop_last(), c);
        lemma_decimal_avoids(entries.last().0 as nat, c);
        lemma_address_avoids(entries.last().1, c);
        lemma_decimal_avoids(entries.last().2 as nat, c);
    }
}

proof fn lemma_bulk_write_items_avoid(entries: Seq<(u8, u16, Seq<u8>)>, c: char)
    requires
        c < ' ',
    ensures
        avoids(line::bulk_write_items(entries), c),
    decreases entries.len(),
{
    if entries.len() > 0 {
        reveal_strlit("[ID ");
        reveal_strlit(" ");
        reveal_strlit("] ");
        lemma_bulk_write_items_avoid(entries.drop_last(), c);
        lemma_decimal_avoids(entries.last().0 as nat, c);
        lemma_address_avoids(entries.last().1, c);
        lemma_bytes_avoid(entries.last().2, c);
    }
}

proof fn lemma_details_avoid(kind: Kind, params: Seq<u8>, c: char)
    requires
        c < ' ',
    ensures
        avoids(line::details(kind, params), c),
{
    reveal_strlit("  ");
    reveal_strlit(" ");
    reveal_strlit(" len=");
    reveal_strlit(" data=");
    reveal_strlit(" ids=");
    reveal_strlit("  params=");
    match kind {
        Kind::Read { addr, len } => {
            lemma_address_avoids(addr, c);
            lemma_decimal_avoids(len as nat, c);
        },
        Kind::Write { addr, data } => {
            lemma_address_avoids(addr, c);
            lemma_bytes_avoid(data, c);
        },
        Kind::RegWrite { addr, data } => {
            lemma_address_avoids(addr, c);
            lemma_bytes_avoid(data, c);
        },
        Kind::SyncRead { addr, len, ids } => {
            lemma_address_avoids(addr, c);
            lemma_decimal_avoids(len as nat, c);
            lemma_bytes_avoid(ids, c);
        },
        Kind::SyncWrite { addr, len, entries } => {
            lemma_address_avoids(addr, c);
            lemma_decimal_avoids(len as nat, c);
            lemma_sync_items_avoid(entries, c);
        },
        Kind::BulkRead { entries } => {
            lemma_bulk_read_items_avoid(entries, c);
        },
        Kind::BulkWrite { entries } => {
            lemma_bulk_write_items_avoid(entries, c);
        },
        Kind::Other => {
            lemma_bytes_avoid(params, c);
        },
        _ => {},
    }
}

proof fn lemma_paint_avoids(colored: bool, s: Seq<char>, c: char)
    requires
        c < ' ',
        colored ==> c != '\x1b',
        avoids(s, c),
    ensures
        avoids(line::paint(colored, color::dim(), s), c),
        avoids(line::paint(colored, color::cyan(), s), c),
        avoids(line::paint(colored, color::green(), s), c),
        avoids(line::paint(colored, color::yellow(), s), c),
        avoids(line::paint(colored, color::red(), s), c),
{
    reveal_strlit("\x1b[0m");
    reveal_strlit("\x1b[2m");
    reveal_strlit("\x1b[36;1m");
    reveal_strlit("\x1b[32;1m");
    reveal_strlit("\x1b[33;1m");
    reveal_strlit("\x1b[31;1m");
}

proof fn lemma_device_avoids(id: u8, c: char)
    requires
        c < ' ',
    ensures
        avoids(line::device(id), c),
        avoids(line::target(id), c),
{
    reveal_strlit("ID ");
    reveal_strlit("0xFE");
    lemma_decimal_avoids(id as nat, c);
}

/// Whether the texts inside a meaning avoid a character.
pub open spec fn names_avoid(m: Meaning, c: char) -> bool {
    match m {
        Meaning::Master { name, .. } => avoids(name, c),
        Meaning::Slave { error_flags, .. } => forall|i: int|
            0 <= i < error_flags.len() ==> avoids(#[trigger] error_flags[i], c),
        Meaning::Unknown { .. } => true,
    }
}

proof fn lemma_instruction_names_avoid(b: u8, c: char)
    requires
        c < ' ',
    ensures
        avoids(meaning::name_or_unknown(meaning::v1_name(b)), c),
        avoids(meaning::name_or_unknown(meaning::v2_name(b)), c),
{
    reveal_strlit("PING");
    reveal_strlit("READ");
    reveal_strlit("WRITE");
    reveal_strlit("REG_WRITE");
    reveal_strlit("ACTION");
    reveal_strlit("FACTORY_RESET");
    reveal_strlit("REBOOT");
    reveal_strlit("SYNC_WRITE");
    reveal_strlit("BULK_READ");
    reveal_strlit("CLEAR");
    reveal_strlit("CONTROL_TABLE_BACKUP");
    reveal_strlit("STATUS");
    reveal_strlit("SYNC_READ");
    reveal_strlit("FAST_SYNC_READ");
    reveal_strlit("BULK_WRITE");
    reveal_strlit("FAST_BULK_READ");
    reveal_strlit("UNKNOWN");
}

proof fn lemma_flag_names_avoid(b: u8, c: char)
    requires
        c < ' ',
    ensures
        forall|i: int|
            0 <= i < meaning::v1_flags(b).len() ==> avoids(#[trigger] meaning::v1_flags(b)[i], c),
        forall|i: int|
            0 <= i < meaning::v2_flags(b).len() ==> avoids(#[trigger] meaning::v2_flags(b)[i], c),
{
    reveal_strlit("INPUT_VOLTAGE");
    reveal_strlit("ANGLE_LIMIT");
    reveal_strlit("OVERHEATING");
    reveal_strlit("RANGE");
    reveal_strlit("CHECKSUM");
    reveal_strlit("OVERLOAD");
    reveal_strlit("INSTRUCTION");
    reveal_strlit("HW_ALERT");
    reveal_strlit("RESULT_FAIL");
    reveal_strlit("INSTRUCTION_ERR");
    reveal_strlit("CRC_ERR");
    reveal_strlit("DATA_RANGE");
    reveal_strlit("DATA_LENGTH");
    reveal_strlit("DATA_LIMIT");
    reveal_strlit("ACCESS");
    reveal_strlit("UNKNOWN_ERR");
}

/// Every packet gets a meaning whose texts hold no control character.
proof fn lemma_names_of_classified_avoid(
    pending: Map<u8, u128>,
    timeout: u128,
    now: u128,
    p: Packet,
    c: char,
)
    requires
        c < ' ',
    ensures
        names_avoid(meaning::step(pending, timeout, now, p).1, c),
{
    lemma_instruction_names_avoid(p.instr_or_err, c);
    lemma_flag_names_avoid(p.instr_or_err, c);
    lemma_flag_names_avoid(0, c);
    if p.params.len() > 0 {
        lemma_flag_names_avoid(p.params[0], c);
    }
}

proof fn lemma_status_avoids(
    colored: bool,
    error: u8,
    flags: Seq<Seq<char>>,
    data: Seq<u8>,
    c: char,
)
    requires
        c < ' ',
        colored ==> c != '\x1b',
        forall|i: int| 0 <= i < flags.len() ==> avoids(#[trigger] flags[i], c),
    ensures
        avoids(line::status(colored, error, flags, data), c),
{
    reveal_strlit("STATUS       ");
    reveal_strlit("  data=");
    reveal_strlit("ok");
    reveal_strlit("err=0x");
    reveal_strlit("(");
    reveal_strlit("|");
    reveal_strlit(")");
    lemma_hex_avoids(error as nat, 2, c);
    lemma_join_avoids(flags, "|"@, c);
    lemma_bytes_avoid(data, c);
    let names = if flags.len() == 0 {
        Seq::empty()
    } else {
        "("@ + text::join(flags, "|"@) + ")"@
    };
    lemma_paint_avoids(colored, "err=0x"@ + text::hex(error as nat, 2) + names, c);
}

proof fn lemma_sender_avoids(colored: bool, m: Meaning, c: char)
    requires
        c < ' ',
        colored ==> c != '\x1b',
    ensures
        avoids(line::sender(colored, m), c),
{
    reveal_strlit("MASTER →");
    reveal_strlit(" ←");
    reveal_strlit("UNKNOWN ");
    let packet = meaning::packet_of(m);
    lemma_device_avoids(packet.id, c);
    lemma_paint_avoids(colored, "MASTER →"@, c);
    lemma_paint_avoids(colored, line::device(packet.id) + " ←"@, c);
    lemma_paint_avoids(colored, "UNKNOWN "@, c);
}

proof fn lemma_body_avoids(colored: bool, m: Meaning, c: char)
    requires
        c < ' ',
        colored ==> c != '\x1b',
        names_avoid(m, c),
    ensures
        avoids(line::body(colored, m), c),
{
    let packet = meaning::packet_of(m);
    match m {
        Meaning::Master { name, kind, .. } => {
            reveal_strlit(" → ");
            lemma_device_avoids(packet.id, c);
            lemma_details_avoid(kind, packet.params, c);
        },
        Meaning::Slave { error, error_flags, data, .. } => {
            lemma_status_avoids(colored, error, error_flags, data, c);
        },
        Meaning::Unknown { .. } => {
            reveal_strlit("?            id=");
            reveal_strlit(" byte=0x");
            reveal_strlit(" params=");
            lemma_decimal_avoids(packet.id as nat, c);
            lemma_hex_avoids(packet.instr_or_err as nat, 2, c);
            lemma_bytes_avoid(packet.params, c);
        },
    }
}

/// A line adds no control character to those of the time and the names, apart from
/// the escape character if color is on.
proof fn lemma_line_avoids(
    colored: bool,
    with_dump: bool,
    ts: Seq<char>,
    m: Meaning,
    c: char,
)
    requires
        c < ' ',
        colored ==> c != '\x1b',
        avoids(ts, c),
        names_avoid(m, c),
    ensures
        avoids(line::line(colored, with_dump, ts, m), c),
{
    let packet = meaning::packet_of(m);
    reveal_strlit("[");
    reveal_strlit("]");
    reveal_strlit("] ");
    reveal_strlit(" ");
    reveal_strlit("  ");
    reveal_strlit("v1");
    reveal_strlit("v2");
    lemma_paint_avoids(colored, line::version_text(packet.version), c);
    lemma_sender_avoids(colored, m, c);
    lemma_body_avoids(colored, m, c);
    lemma_bytes_avoid(packet.raw, c);
    lemma_paint_avoids(colored, "["@ + text::hex_bytes(packet.raw) + "]"@, c);
}

/// Each classified packet makes one line: it holds no line break, colored or not,
/// unless the time does.
pub proof fn lemma_one_line_per_packet(
    colored: bool,
    with_dump: bool,
    ts: Seq<char>,
    pending: Map<u8, u128>,
    timeout: u128,
    now: u128,
    p: Packet,
)
    requires
        avoids(ts, '\n'),
    ensures
        avoids(
            line::line(colored, with_dump, ts, meaning::step(pending, timeout, now, p).1),
            '\n',
        ),
{
    lemma_names_of_classified_avoid(pending, timeout, now, p, '\n');
    lemma_line_avoids(
        colored,
        with_dump,
        ts,
        meaning::step(pending, timeout, now, p).1,
        '\n',
    );
}

/// Without color the line of a classified packet holds no escape character, unless
/// the time does.
pub proof fn lemma_no_escapes_without_color(
    with_dump: bool,
    ts: Seq<char>,
    pending: Map<u8, u128>,
    timeout: u128,
    now: u128,
    p: Packet,
)
    requires
        avoids(ts, '\x1b'),
    ensures
        avoids(
            line::line(false, with_dump, ts, meaning::step(pending, timeout, now, p).1),
            '\x1b',
        ),
{
    lemma_names_of_classified_avoid(pending, timeout, now, p, '\x1b');
    lemma_line_avoids(
        false,
        with_dump,
        ts,
        meaning::step(pending, timeout, now, p).1,
        '\x1b',
    );
}

/// What is left of a text that starts inside an escape sequence: the sequence ends
/// with its first `m`.
pub open spec fn after_sequence(s: Seq<char>) -> Seq<char>
    decreases s.len(),
{
    if s.len() == 0 {
        s
    } else if s[0] == 'm' {
        s.skip(1)
    } else {
        after_sequence(s.skip(1))
    }
}

/// Passing over the rest of an escape sequence adds nothing to a text.
pub proof fn lemma_after_sequence_shrinks(s: Seq<char>)
    ensures
        after_sequence(s).len() <= s.len(),
    decreases s.len(),
{
    if s.len() > 0 {
        lemma_after_sequence_shrinks(s.skip(1));
    }
}

/// A text without its escape sequences.
pub open spec fn visible(s: Seq<char>) -> Seq<char>
    decreases s.len(),
{
    if s.len() == 0 {
        s
    } else if s[0] == '\x1b' {
        proof {
            lemma_after_sequence_shrinks(s.skip(1));
        }
        visible(after_sequence(s.skip(1)))
    } else {
        seq![s[0]] + visible(s.skip(1))
    }
}

/// Whether a text looks like `t`, whatever follows it.
spec fn shows(s: Seq<char>, t: Seq<char>) -> bool {
    forall|rest: Seq<char>| #[trigger] visible(s + rest) == t + visible(rest)
}

proof fn lemma_plain_shows_itself(s: Seq<char>)
    requires
        avoids(s, '\x1b'),
    ensures
        shows(s, s),
    decreases s.len(),
{
    assert forall|rest: Seq<char>| #[trigger] visible(s + rest) == s + visible(rest) by {
        if s.len() == 0 {
            assert(s + rest =~= rest);
            assert(s + visible(rest) =~= visible(rest));
        } else {
            let tail = s.skip(1);
            lemma_plain_shows_itself(tail);
            assert((s + rest)[0] == s[0]);
            assert((s + rest).skip(1) =~= tail + rest);
            assert(visible(tail + rest) == tail + visible(rest));
            assert(seq![s[0]] + (tail + visible(rest)) =~= s + visible(rest));
        }
    }
}

proof fn lemma_shows_both(a: Seq<char>, ta: Seq<char>, b: Seq<char>, tb: Seq<char>)
    requires
        shows(a, ta),
        shows(b, tb),
    ensures
        shows(a + b, ta + tb),
{
    assert forall|rest: Seq<char>| #[trigger] visible((a + b) + rest) == (ta + tb) + visible(
        rest,
    ) by {
        assert((a + b) + rest =~= a + (b + rest));
        assert(visible(b + rest) == tb + visible(rest));
        assert(ta + (tb + visible(rest)) =~= (ta + tb) + visible(rest));
    }
}

/// An escape sequence shows nothing.
proof fn lemma_sequence_is_invisible(s: Seq<char>)
    requires
        s.len() > 1,
        s[0] == '\x1b',
        s.last() == 'm',
        forall|i: int| 0 <= i < s.len() - 1 ==> s[i] != 'm',
    ensures
        shows(s, Seq::empty()),
{
    assert forall|rest: Seq<char>| #[trigger] visible(s + rest) == Seq::<char>::empty() + visible(
        rest,
    ) by {
        assert((s + rest).skip(1) =~= s.skip(1) + rest);
        lemma_after_sequence(s.skip(1), rest);
        assert(Seq::<char>::empty() + visible(rest) =~= visible(rest));
    }
}

proof fn lemma_after_sequence(s: Seq<char>, rest: Seq<char>)
    requires
        s.len() > 0,
        s.last() == 'm',
        forall|i: int| 0 <= i < s.len() - 1 ==> s[i] != 'm',
    ensures
        after_sequence(s + rest) == rest,
    decreases s.len(),
{
    assert((s + rest)[0] == s[0]);
    assert((s + rest).skip(1) =~= s.skip(1) + rest);
    if s.len() == 1 {
        assert((s + rest).skip(1) =~= rest);
    } else {
        lemma_after_sequence(s.skip(1), rest);
    }
}

proof fn lemma_paint_shows(start: Seq<char>, s: Seq<char>)
    requires
        avoids(s, '\x1b'),
        start == color::dim() || start == color::cyan() || start == color::green() || start
            == color::yellow() || start == color::red(),
    ensures
        shows(line::paint(true, start, s), line::paint(false, start, s)),
{
    reveal_strlit("\x1b[0m");
    reveal_strlit("\x1b[2m");
    reveal_strlit("\x1b[36;1m");
    reveal_strlit("\x1b[32;1m");
    reveal_strlit("\x1b[33;1m");
    reveal_strlit("\x1b[31;1m");
    let empty = Seq::<char>::empty();
    lemma_sequence_is_invisible(start);
    lemma_sequence_is_invisible("\x1b[0m"@);
    lemma_plain_shows_itself(s);
    lemma_shows_both(start, empty, s, s);
    lemma_shows_both(start + s, empty + s, "\x1b[0m"@, empty);
    assert(empty + s + empty =~= s);
}

proof fn lemma_sender_shows(m: Meaning)
    ensures
        shows(line::sender(true, m), line::sender(false, m)),
{
    reveal_strlit("MASTER →");
    reveal_strlit(" ←");
    reveal_strlit("UNKNOWN ");
    let packet = meaning::packet_of(m);
    lemma_device_avoids(packet.id, '\x1b');
    lemma_paint_shows(color::cyan(), "MASTER →"@);
    lemma_paint_shows(color::green(), line::device(packet.id) + " ←"@);
    lemma_paint_shows(color::yellow(), "UNKNOWN "@);
}

proof fn lemma_error_shows(error: u8, flags: Seq<Seq<char>>)
    requires
        forall|i: int| 0 <= i < flags.len() ==> avoids(#[trigger] flags[i], '\x1b'),
    ensures
        shows(line::error_text(true, error, flags), line::error_text(false, error, flags)),
{
    reveal_strlit("ok");
    reveal_strlit("err=0x");
    reveal_strlit("(");
    reveal_strlit("|");
    reveal_strlit(")");
    let names = if flags.len() == 0 {
        Seq::empty()
    } else {
        "("@ + text::join(flags, "|"@) + ")"@
    };
    lemma_hex_avoids(error as nat, 2, '\x1b');
    lemma_join_avoids(flags, "|"@, '\x1b');
    lemma_plain_shows_itself("ok"@);
    lemma_paint_shows(color::red(), "err=0x"@ + text::hex(error as nat, 2) + names);
}

proof fn lemma_body_shows(m: Meaning)
    requires
        names_avoid(m, '\x1b'),
    ensures
        shows(line::body(true, m), line::body(false, m)),
{
    lemma_body_avoids(false, m, '\x1b');
    match m {
        Meaning::Slave { error, error_flags, data, .. } => {
            reveal_strlit("STATUS       ");
            reveal_strlit("  data=");
            let head = "STATUS       "@;
            let mid = "  data="@;
            let tail = text::hex_bytes(data);
            let e1 = line::error_text(true, error, error_flags);
            let e0 = line::error_text(false, error, error_flags);
            lemma_bytes_avoid(data, '\x1b');
            lemma_plain_shows_itself(head);
            lemma_plain_shows_itself(mid);
            lemma_plain_shows_itself(tail);
            lemma_error_shows(error, error_flags);
            lemma_shows_both(head, head, e1, e0);
            lemma_shows_both(head + e1, head + e0, mid, mid);
            lemma_shows_both(head + e1 + mid, head + e0 + mid, tail, tail);
        },
        _ => {
            lemma_plain_shows_itself(line::body(false, m));
        },
    }
}

proof fn lemma_message_shows(ts: Seq<char>, m: Meaning)
    requires
        avoids(ts, '\x1b'),
        names_avoid(m, '\x1b'),
    ensures
        shows(line::message(true, ts, m), line::message(false, ts, m)),
{
    reveal_strlit("[");
    reveal_strlit("] ");
    reveal_strlit(" ");
    reveal_strlit("  ");
    reveal_strlit("v1");
    reveal_strlit("v2");
    let version = line::version_text(meaning::packet_of(m).version);
    let head = "["@ + ts + "] "@;
    let (s1, s0) = (line::sender(true, m), line::sender(false, m));
    let (v1, v0) = (
        line::paint(true, color::dim(), version),
        line::paint(false, color::dim(), version),
    );
    let (b1, b0) = (line::body(true, m), line::body(false, m));
    lemma_plain_shows_itself(head);
    lemma_plain_shows_itself(" "@);
    lemma_plain_shows_itself("  "@);
    lemma_sender_shows(m);
    lemma_paint_shows(color::dim(), version);
    lemma_body_shows(m);
    lemma_shows_both(head, head, s1, s0);
    lemma_shows_both(head + s1, head + s0, " "@, " "@);
    lemma_shows_both(head + s1 + " "@, head + s0 + " "@, v1, v0);
    lemma_shows_both(head + s1 + " "@ + v1, head + s0 + " "@ + v0, "  "@, "  "@);
    lemma_shows_both(head + s1 + " "@ + v1 + "  "@, head + s0 + " "@ + v0 + "  "@, b1, b0);
}

/// Color changes only the look: without its escape sequences, the colored line of a
/// classified packet is the uncolored line.
pub proof fn lemma_color_adds_only_escapes(
    with_dump: bool,
    ts: Seq<char>,
    pending: Map<u8, u128>,
    timeout: u128,
    now: u128,
    p: Packet,
)
    requires
        avoids(ts, '\x1b'),
    ensures
        ({
            let m = meaning::step(pending, timeout, now, p).1;
            visible(line::line(true, with_dump, ts, m)) == line::line(false, with_dump, ts, m)
        }),
{
    let m = meaning::step(pending, timeout, now, p).1;
    let raw = meaning::packet_of(m).raw;
    let (m1, m0) = (line::message(true, ts, m), line::message(false, ts, m));
    let (d1, d0) = (line::dump(true, raw), line::dump(false, raw));
    let empty = Seq::<char>::empty();
    reveal_strlit("[");
    reveal_strlit("]");
    reveal_strlit("  ");
    lemma_names_of_classified_avoid(pending, timeout, now, p, '\x1b');
    lemma_message_shows(ts, m);
    lemma_bytes_avoid(raw, '\x1b');
    lemma_paint_shows(color::dim(), "["@ + text::hex_bytes(raw) + "]"@);
    lemma_plain_shows_itself("  "@);
    lemma_shows_both(m1, m0, "  "@, "  "@);
    lemma_shows_both(m1 + "  "@, m0 + "  "@, d1, d0);
    let (l1, l0) = (line::line(true, with_dump, ts, m), line::line(false, with_dump, ts, m));
    assert(visible(l1 + empty) == l0 + visible(empty));
    assert(l1 + empty =~= l1);
    assert(l0 + visible(empty) =~= l0);
}

} // verus!
