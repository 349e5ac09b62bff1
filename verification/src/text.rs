//! Building display text: hexadecimal and decimal rendering of numbers.

use vstd::prelude::*;

verus! {

/// The character that shows the digit value `d` (0..16) in upper-case
/// hexadecimal; for 0..10 it is also the decimal digit.
pub open spec fn hex_digit_char(d: int) -> char {
    if d < 10 {
        (48 + d) as char
    } else {
        (55 + d) as char
    }
}

/// Two upper-case hexadecimal digits for one byte, high nibble first.
pub open spec fn hex_byte(b: u8) -> Seq<char> {
    seq![hex_digit_char(b as int / 16), hex_digit_char(b as int % 16)]
}

/// The decimal digits of `n`, most significant first, without leading zeros.
pub open spec fn decimal_digits(n: nat) -> Seq<char>
    decreases n,
{
    if n < 10 {
        seq![hex_digit_char(n as int)]
    } else {
        decimal_digits(n / 10).push(hex_digit_char((n % 10) as int))
    }
}

/// The decimal rendering of an integer, with a leading `-` when negative.
pub open spec fn decimal_signed(v: int) -> Seq<char> {
    if v < 0 {
        seq!['-'] + decimal_digits((-v) as nat)
    } else {
        decimal_digits(v as nat)
    }
}

/// A one-character string holding the hexadecimal digit for `d`.
pub fn hex_digit_str(d: u8) -> (s: &'static str)
    requires
        d < 16,
    ensures
        s@ == seq![hex_digit_char(d as int)],
{
    proof {
        reveal_strlit("0");
        reveal_strlit("1");
        reveal_strlit("2");
        reveal_strlit("3");
        reveal_strlit("4");
        reveal_strlit("5");
        reveal_strlit("6");
        reveal_strlit("7");
        reveal_strlit("8");
        reveal_strlit("9");
        reveal_strlit("A");
        reveal_strlit("B");
        reveal_strlit("C");
        reveal_strlit("D");
        reveal_strlit("E");
        reveal_strlit("F");
    }
    let s = match d {
        0 => "0",
        1 => "1",
        2 => "2",
        3 => "3",
        4 => "4",
        5 => "5",
        6 => "6",
        7 => "7",
        8 => "8",
        9 => "9",
        10 => "A",
        11 => "B",
        12 => "C",
        13 => "D",
        14 => "E",
        _ => "F",
    };
    assert(s@ =~= seq![hex_digit_char(d as int)]);
    s
}

/// Appends the two upper-case hexadecimal digits of `b`.
pub fn push_hex_byte(out: &mut String, b: u8)
    ensures
        final(out)@ == old(out)@ + hex_byte(b),
{
    out.append(hex_digit_str(b / 16));
    out.append(hex_digit_str(b % 16));
    assert(final(out)@ =~= old(out)@ + hex_byte(b));
}

/// Appends the decimal digits of `n`.
pub fn push_decimal(out: &mut String, n: u64)
    ensures
        final(out)@ == old(out)@ + decimal_digits(n as nat),
    decreases n,
{
    if n >= 10 {
        push_decimal(out, n / 10);
    }
    out.append(hex_digit_str((n % 10) as u8));
    assert(final(out)@ =~= old(out)@ + decimal_digits(n as nat));
}

/// Appends the decimal rendering of `v`, with a leading `-` when negative.
pub fn push_signed_decimal(out: &mut String, v: i64)
    ensures
        final(out)@ == old(out)@ + decimal_signed(v as int),
{
    if v < 0 {
        proof {
            reveal_strlit("-");
        }
        out.append("-");
        let magnitude: u64 = (-(v as i128)) as u64;
        push_decimal(out, magnitude);
        assert(final(out)@ =~= old(out)@ + decimal_signed(v as int));
    } else {
        push_decimal(out, v as u64);
    }
}

/// Lexicographic order of texts by code point (for UTF-8 text the same as
/// byte order): `a` comes first or equals `b`.
pub open spec fn text_le(a: Seq<char>, b: Seq<char>) -> bool
    decreases a.len(),
{
    if a.len() == 0 {
        true
    } else if b.len() == 0 {
        false
    } else if a[0] != b[0] {
        (a[0] as int) < (b[0] as int)
    } else {
        text_le(a.drop_first(), b.drop_first())
    }
}

/// Of two texts, one comes first.
pub proof fn lemma_text_le_total(a: Seq<char>, b: Seq<char>)
    ensures
        text_le(a, b) || text_le(b, a),
    decreases a.len(),
{
    if a.len() > 0 && b.len() > 0 && a[0] == b[0] {
        lemma_text_le_total(a.drop_first(), b.drop_first());
    }
}

/// The order of texts is transitive.
pub proof fn lemma_text_le_transitive(a: Seq<char>, b: Seq<char>, c: Seq<char>)
    requires
        text_le(a, b),
        text_le(b, c),
    ensures
        text_le(a, c),
    decreases a.len(),
{
    if a.len() > 0 && b.len() > 0 && c.len() > 0 && a[0] == b[0] && b[0] == c[0] {
        lemma_text_le_transitive(a.drop_first(), b.drop_first(), c.drop_first());
    }
}

/// Comparing two texts that start with parts of equal length: when the parts
/// are equal the rests decide, otherwise the parts do; and the texts are equal
/// exactly when both parts and rests are.
pub proof fn lemma_text_le_concat(p1: Seq<char>, s1: Seq<char>, p2: Seq<char>, s2: Seq<char>)
    requires
        p1.len() == p2.len(),
    ensures
        text_le(p1 + s1, p2 + s2) == (if p1 == p2 {
            text_le(s1, s2)
        } else {
            text_le(p1, p2)
        }),
        (p1 + s1 == p2 + s2) == (p1 == p2 && s1 == s2),
    decreases p1.len(),
{
    if p1.len() == 0 {
        assert(p1 + s1 =~= s1);
        assert(p2 + s2 =~= s2);
        assert(p1 =~= p2);
    } else {
        assert((p1 + s1)[0] == p1[0]);
        assert((p2 + s2)[0] == p2[0]);
        assert((p1 + s1).drop_first() =~= p1.drop_first() + s1);
        assert((p2 + s2).drop_first() =~= p2.drop_first() + s2);
        lemma_text_le_concat(p1.drop_first(), s1, p2.drop_first(), s2);
        if p1[0] == p2[0] && p1.drop_first() == p2.drop_first() {
            assert forall|i: int| 0 <= i < p1.len() implies p1[i] == p2[i] by {
                if i > 0 {
                    assert(p1[i] == p1.drop_first()[i - 1]);
                    assert(p2[i] == p2.drop_first()[i - 1]);
                }
            }
            assert(p1 =~= p2);
        }
        if p1 == p2 {
            assert(p1.drop_first() == p2.drop_first());
        }
        if p1 == p2 && s1 == s2 {
            assert(p1 + s1 =~= p2 + s2);
        }
        if p1 + s1 == p2 + s2 {
            assert((p1 + s1).drop_first() == (p2 + s2).drop_first());
        }
    }
}

} // verus!
