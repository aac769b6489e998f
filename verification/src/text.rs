//! Numbers and lists as text.

use vstd::prelude::*;

verus! {

/// The character for a digit, in bases up to sixteen.
pub open spec fn digit(d: nat) -> char {
    seq!['0', '1', '2', '3', '4', '5', '6', '7', '8', '9', 'A', 'B', 'C', 'D', 'E', 'F'][d as int]
}

/// A number in base ten.
pub open spec fn decimal(n: nat) -> Seq<char>
    decreases n,
{
    if n < 10 {
        seq![digit(n)]
    } else {
        decimal(n / 10).push(digit(n % 10))
    }
}

/// The last `width` digits of a number in base sixteen, with leading zeros.
pub open spec fn hex(n: nat, width: nat) -> Seq<char>
    decreases width,
{
    if width == 0 {
        Seq::empty()
    } else {
        hex(n / 16, (width - 1) as nat).push(digit(n % 16))
    }
}

/// A number of spaces.
pub open spec fn spaces(n: nat) -> Seq<char> {
    Seq::new(n, |i: int| ' ')
}

/// A text filled up with spaces on its right to at least `width` characters.
pub open spec fn pad_right(s: Seq<char>, width: nat) -> Seq<char> {
    if s.len() < width {
        s + spaces((width - s.len()) as nat)
    } else {
        s
    }
}

/// A text filled up with spaces on its left to at least `width` characters.
pub open spec fn pad_left(s: Seq<char>, width: nat) -> Seq<char> {
    if s.len() < width {
        spaces((width - s.len()) as nat) + s
    } else {
        s
    }
}

/// The texts of a list of strings.
pub open spec fn texts(names: Seq<&'static str>) -> Seq<Seq<char>> {
    Seq::new(names.len(), |i: int| names[i]@)
}

/// Texts put one after the other with a separator between them.
pub open spec fn join(parts: Seq<Seq<char>>, separator: Seq<char>) -> Seq<char>
    decreases parts.len(),
{
    if parts.len() == 0 {
        Seq::empty()
    } else if parts.len() == 1 {
        parts[0]
    } else {
        join(parts.drop_last(), separator) + separator + parts.last()
    }
}

/// Bytes as two digits each in base sixteen, with a space between them.
pub open spec fn hex_bytes(s: Seq<u8>) -> Seq<char> {
    join(s.map_values(|b: u8| hex(b as nat, 2)), " "@)
}

/// Bytes as numbers in base ten, as a list in square brackets.
pub open spec fn list_of_bytes(s: Seq<u8>) -> Seq<char> {
    "["@ + join(s.map_values(|b: u8| decimal(b as nat)), ", "@) + "]"@
}

/// The text of a digit.
fn digit_text(d: u8) -> (s: &'static str)
    requires
        d < 16,
    ensures
        s@ == seq![digit(d as nat)],
{
    proof {
        reveal_strlit("0");
        reveal_strlit("1");
        reveal_strlit("2");
        reveal_strlit("3");
        reveal_strlit("4");
        reveal_strlit("5");
        reveal_strlit("6");
        reveal_strlit("7");
        reveal_strlit("8");
        reveal_strlit("9");
        reveal_strlit("A");
        reveal_strlit("B");
        reveal_strlit("C");
        reveal_strlit("D");
        reveal_strlit("E");
        reveal_strlit("F");
    }
    let s: &'static str = match d {
        0 => "0",
        1 => "1",
        2 => "2",
        3 => "3",
        4 => "4",
        5 => "5",
        6 => "6",
        7 => "7",
        8 => "8",
        9 => "9",
        10 => "A",
        11 => "B",
        12 => "C",
        13 => "D",
        14 => "E",
        _ => "F",
    };
    assert(s@ =~= seq![digit(d as nat)]);
    s
}

/// Appends a number in base ten.
pub(crate) fn push_decimal(out: &mut String, n: u16)
    ensures
        final(out)@ == old(out)@ + decimal(n as nat),
    decreases n,
{
    if n >= 10 {
        push_decimal(out, n / 10);
    }
    out.append(digit_text((n % 10) as u8));
    assert(out@ =~= old(out)@ + decimal(n as nat));
}

/// Appends a byte as two digits in base sixteen.
pub(crate) fn push_hex2(out: &mut String, b: u8)
    ensures
        final(out)@ == old(out)@ + hex(b as nat, 2),
{
    out.append(digit_text(b / 16));
    out.append(digit_text(b % 16));
    proof {
        reveal_with_fuel(hex, 3);
        assert(out@ =~= old(out)@ + hex(b as nat, 2));
    }
}

/// Appends a number as four digits in base sixteen.
pub(crate) fn push_hex4(out: &mut String, n: u16)
    ensures
        final(out)@ == old(out)@ + hex(n as nat, 4),
{
    push_hex2(out, (n / 256) as u8);
    push_hex2(out, (n % 256) as u8);
    proof {
        reveal_with_fuel(hex, 5);
        assert(out@ =~= old(out)@ + hex(n as nat, 4));
    }
}

/// Appends spaces.
pub(crate) fn push_spaces(out: &mut String, n: usize)
    ensures
        final(out)@ == old(out)@ + spaces(n as nat),
{
    proof {
        reveal_strlit(" ");
    }
    let mut i: usize = 0;
    assert(out@ =~= old(out)@ + spaces(0));
    while i < n
        invariant
            i <= n,
            " "@ == seq![' '],
            out@ == old(out)@ + spaces(i as nat),
        decreases n - i,
    {
        out.append(" ");
        i = i + 1;
        assert(out@ =~= old(out)@ + spaces(i as nat));
    }
}

/// Appends a text, filled up with spaces on its right to `width` characters.
pub(crate) fn push_padded_right(out: &mut String, s: &str, width: usize)
    ensures
        final(out)@ == old(out)@ + pad_right(s@, width as nat),
{
    out.append(s);
    let len: usize = s.unicode_len();
    if len < width {
        push_spaces(out, width - len);
        assert(out@ =~= old(out)@ + (s@ + spaces((width - len) as nat)));
    }
}

/// Appends a byte in base ten, filled up with spaces on its left to three
/// characters.
pub(crate) fn push_decimal3(out: &mut String, b: u8)
    ensures
        final(out)@ == old(out)@ + pad_left(decimal(b as nat), 3),
{
    proof {
        reveal_with_fuel(decimal, 3);
    }
    if b < 10 {
        push_spaces(out, 2);
    } else if b < 100 {
        push_spaces(out, 1);
    }
    push_decimal(out, b as u16);
    assert(out@ =~= old(out)@ + pad_left(decimal(b as nat), 3));
}

/// One more part at the end of a joined text.
proof fn lemma_join_push(parts: Seq<Seq<char>>, part: Seq<char>, separator: Seq<char>)
    ensures
        join(parts.push(part), separator) == (if parts.len() == 0 {
            part
        } else {
            join(parts, separator) + separator + part
        }),
{
    assert(parts.push(part).drop_last() =~= parts);
}

/// Bytes as two digits each in base sixteen, with a space between them.
pub fn hexs(b: &[u8]) -> (out: String)
    ensures
        out@ == hex_bytes(b@),
{
    let mut out = String::new();
    let mut i: usize = 0;
    let ghost f = |x: u8| hex(x as nat, 2);
    assert(b@.take(0).map_values(f) =~= Seq::<Seq<char>>::empty());
    while i < b.len()
        invariant
            i <= b@.len(),
            f == (|x: u8| hex(x as nat, 2)),
            out@ == join(b@.take(i as int).map_values(f), " "@),
        decreases b@.len() - i,
    {
        let ghost done = b@.take(i as int).map_values(f);
        let ghost before = out@;
        if i > 0 {
            out.append(" ");
        }
        push_hex2(&mut out, b[i]);
        proof {
            lemma_join_push(done, hex(b@[i as int] as nat, 2), " "@);
            assert(b@.take(i + 1).map_values(f) =~= done.push(hex(b@[i as int] as nat, 2)));
            if i == 0 {
                assert(out@ =~= hex(b@[i as int] as nat, 2));
            }
        }
        i = i + 1;
    }
    assert(b@.take(i as int) =~= b@);
    out
}

/// Appends bytes as numbers in base ten, as a list in square brackets.
pub(crate) fn push_list_of_bytes(out: &mut String, b: &Vec<u8>)
    ensures
        final(out)@ == old(out)@ + list_of_bytes(b@),
{
    out.append("[");
    let mut i: usize = 0;
    let ghost start = out@;
    let ghost f = |x: u8| decimal(x as nat);
    assert(b@.take(0).map_values(f) =~= Seq::<Seq<char>>::empty());
    assert(out@ =~= start + Seq::<char>::empty());
    while i < b.len()
        invariant
            i <= b@.len(),
            f == (|x: u8| decimal(x as nat)),
            out@ == start + join(b@.take(i as int).map_values(f), ", "@),
        decreases b@.len() - i,
    {
        let ghost done = b@.take(i as int).map_values(f);
        let ghost part = decimal(b@[i as int] as nat);
        if i > 0 {
            out.append(", ");
        }
        push_decimal(out, b[i] as u16);
        proof {
            lemma_join_push(done, part, ", "@);
            assert(b@.take(i + 1).map_values(f) =~= done.push(part));
            if i == 0 {
                assert(out@ =~= start + part);
            } else {
                assert(out@ =~= start + (join(done, ", "@) + ", "@ + part));
            }
        }
        i = i + 1;
    }
    assert(b@.take(i as int) =~= b@);
    out.append("]");
    assert(out@ =~= old(out)@ + list_of_bytes(b@));
}

/// Appends texts with a separator between them.
pub(crate) fn push_joined(out: &mut String, parts: &Vec<&'static str>, separator: &str)
    ensures
        final(out)@ == old(out)@ + join(texts(parts@), separator@),
{
    let mut i: usize = 0;
    assert(texts(parts@.take(0)) =~= Seq::<Seq<char>>::empty());
    assert(out@ =~= old(out)@ + Seq::<char>::empty());
    while i < parts.len()
        invariant
            i <= parts@.len(),
            out@ == old(out)@ + join(texts(parts@.take(i as int)), separator@),
        decreases parts@.len() - i,
    {
        let ghost done = texts(parts@.take(i as int));
        let ghost part = parts@[i as int]@;
        if i > 0 {
            out.append(separator);
        }
        out.append(parts[i]);
        proof {
            lemma_join_push(done, part, separator@);
            assert(texts(parts@.take(i + 1)) =~= done.push(part));
            if i > 0 {
                assert(out@ =~= old(out)@ + (join(done, separator@) + separator@ + part));
            } else {
                assert(out@ =~= old(out)@ + part);
            }
        }
        i = i + 1;
    }
    assert(parts@.take(i as int) =~= parts@);
}

} // verus!
