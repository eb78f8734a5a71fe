//! The mathematical model of the counts: spec functions over `Seq<char>`
//! saying what each counting function returns, and the laws that relate them.

use vstd::arithmetic::div_mod::lemma_fundamental_div_mod;
use vstd::prelude::*;
use vstd::utf8::encode_scalar;
use vstd::utf8::encode_utf8;
use vstd::utf8::is_ascii_chars;

verus! {

/// Number of Unicode scalar values in the text.
pub open spec fn char_count(s: Seq<char>) -> nat {
    s.len()
}

/// Number of bytes in the UTF-8 encoding of the text.
pub open spec fn byte_count(s: Seq<char>) -> nat {
    encode_utf8(s).len()
}

/// Number of line-terminator (`'\n'`) occurrences in the text.
pub open spec fn newline_count(s: Seq<char>) -> nat
    decreases s.len(),
{
    if s.len() == 0 {
        0
    } else {
        newline_count(s.drop_last()) + if s.last() == '\n' {
            1nat
        } else {
            0nat
        }
    }
}

/// Number of terminator-delimited line segments: a trailing terminator does
/// not open an extra empty segment.
pub open spec fn line_count(s: Seq<char>) -> nat {
    if s.len() == 0 {
        0
    } else if s.last() == '\n' {
        newline_count(s)
    } else {
        newline_count(s) + 1
    }
}

/// True of the characters with the Unicode `White_Space` property: the
/// separators between words.
pub open spec fn is_space(c: char) -> bool {
    let u = c as u32;
    (9 <= u && u <= 13) || u == 32 || u == 0x85 || u == 0xA0 || u == 0x1680 || (0x2000 <= u && u
        <= 0x200A) || u == 0x2028 || u == 0x2029 || u == 0x202F || u == 0x205F || u == 0x3000
}

/// Number of maximal whitespace-delimited non-empty tokens: one token is
/// counted for each position that holds a non-space character and follows
/// either nothing or a space character.
pub open spec fn word_count(s: Seq<char>) -> nat
    decreases s.len(),
{
    if s.len() == 0 {
        0
    } else {
        word_count(s.drop_last()) + if !is_space(s.last()) && (s.len() == 1 || is_space(
            s[s.len() - 2],
        )) {
            1nat
        } else {
            0nat
        }
    }
}

/// The character for one decimal digit.
pub open spec fn digit_char(d: nat) -> char
    recommends
        d < 10,
{
    if d == 0 {
        '0'
    } else if d == 1 {
        '1'
    } else if d == 2 {
        '2'
    } else if d == 3 {
        '3'
    } else if d == 4 {
        '4'
    } else if d == 5 {
        '5'
    } else if d == 6 {
        '6'
    } else if d == 7 {
        '7'
    } else if d == 8 {
        '8'
    } else {
        '9'
    }
}

/// The decimal rendering of a count: no sign, no padding, and a leading zero
/// only for the value zero itself.
pub open spec fn dec_str(n: nat) -> Seq<char>
    decreases n,
{
    if n < 10 {
        seq![digit_char(n)]
    } else {
        dec_str(n / 10).push(digit_char(n % 10))
    }
}

/// True of the ten decimal digit characters.
pub open spec fn is_digit(c: char) -> bool {
    0x30 <= c as u32 && c as u32 <= 0x39
}

/// The value of one decimal digit character.
pub open spec fn digit_value(c: char) -> nat
    recommends
        is_digit(c),
{
    (c as u32 - 0x30) as nat
}

/// True when every character of the text is a decimal digit.
pub open spec fn all_digits(s: Seq<char>) -> bool {
    forall|i: int| 0 <= i < s.len() ==> is_digit(#[trigger] s[i])
}

/// The value of a text of decimal digits, most significant first.
pub open spec fn dec_value(s: Seq<char>) -> nat
    recommends
        all_digits(s),
    decreases s.len(),
{
    if s.len() == 0 {
        0
    } else {
        dec_value(s.drop_last()) * 10 + digit_value(s.last())
    }
}

/// Reading a text back as a non-negative decimal integer: defined exactly for
/// the non-empty all-digit texts.
pub open spec fn parse_decimal(s: Seq<char>) -> Option<nat> {
    if s.len() > 0 && all_digits(s) {
        Some(dec_value(s))
    } else {
        None
    }
}

/// On non-empty text the line count is the number of terminator occurrences
/// when the text ends in a terminator, and one more when it does not.
pub proof fn lemma_line_count_terminators(s: Seq<char>)
    requires
        s.len() > 0,
    ensures
        s.last() == '\n' ==> line_count(s) == newline_count(s),
        s.last() != '\n' ==> line_count(s) == newline_count(s) + 1,
{
}

/// The character count never exceeds the byte count; the two are equal
/// exactly when every character is ASCII, so any non-ASCII character makes
/// the byte count strictly larger.
pub proof fn lemma_char_count_vs_byte_count(s: Seq<char>)
    ensures
        char_count(s) <= byte_count(s),
        byte_count(s) == char_count(s) <==> is_ascii_chars(s),
        !is_ascii_chars(s) ==> char_count(s) < byte_count(s),
    decreases s.len(),
{
    if s.len() == 0 {
        assert(is_ascii_chars(s));
    } else {
        let t = s.drop_first();
        lemma_char_count_vs_byte_count(t);
        lemma_char_encoding_width(s[0]);
        assert(byte_count(s) == encode_scalar(s[0] as u32).len() + byte_count(t));
        assert(is_ascii_chars(s) <==> (s[0] <= '\u{7f}' && is_ascii_chars(t))) by {
            assert(forall|i: int| 0 <= i < t.len() ==> #[trigger] t[i] == s[i + 1]);
            if s[0] <= '\u{7f}' && is_ascii_chars(t) {
                assert forall|i: int| 0 <= i < s.len() implies '\0' <= #[trigger] s[i]
                    <= '\u{7f}' by {
                    lemma_char_encoding_width(s[i]);
                    if i > 0 {
                        assert(s[i] == t[i - 1]);
                    }
                }
            }
        }
    }
}

/// Every character has a UTF-8 encoding of one to four bytes, of exactly one
/// byte precisely when it is ASCII.
proof fn lemma_char_encoding_width(c: char)
    ensures
        '\0' <= c,
        1 <= encode_scalar(c as u32).len() <= 4,
        encode_scalar(c as u32).len() == 1 <==> c <= '\u{7f}',
{
}

/// Formatting a count and parsing the text back as a decimal integer yields
/// the count again, for every count.
pub proof fn lemma_format_parse_round_trip(n: nat)
    ensures
        dec_str(n).len() > 0,
        all_digits(dec_str(n)),
        parse_decimal(dec_str(n)) == Some(n),
    decreases n,
{
    if n < 10 {
        lemma_digit_char_value(n);
        let w = dec_str(n);
        assert(w.drop_last() =~= Seq::<char>::empty());
        assert(dec_value(w) == dec_value(w.drop_last()) * 10 + digit_value(w.last()));
    } else {
        lemma_digit_char_value(n % 10);
        assert(n / 10 < n) by (nonlinear_arith)
            requires
                n >= 10,
        ;
        lemma_format_parse_round_trip(n / 10);
        let prefix = dec_str(n / 10);
        let whole = dec_str(n);
        assert(whole.drop_last() =~= prefix);
        assert(whole.last() == digit_char(n % 10));
        assert(all_digits(whole)) by {
            assert(forall|i: int|
                0 <= i < prefix.len() ==> #[trigger] whole[i] == prefix[i]);
        }
        assert(dec_value(whole) == dec_value(prefix) * 10 + (n % 10));
        lemma_fundamental_div_mod(n as int, 10);
    }
}

/// One decimal digit renders as a digit character that reads back as itself.
proof fn lemma_digit_char_value(d: nat)
    requires
        d < 10,
    ensures
        is_digit(digit_char(d)),
        digit_value(digit_char(d)) == d,
{
}

} // verus!
