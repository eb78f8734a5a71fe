//! Rendering counts as output text: a single count as a bare decimal string.

use vstd::prelude::*;
use vstd::string::StringExecFns;

use crate::config::CountType;
use crate::counts::count_bytes;
use crate::counts::count_characters;
use crate::counts::count_lines;
use crate::counts::count_words;
use crate::model::byte_count;
use crate::model::char_count;
use crate::model::dec_str;
use crate::model::digit_char;
use crate::model::line_count;
use crate::model::word_count;

verus! {

/// The decimal string for one digit value.
fn digit_str(d: usize) -> (r: &'static str)
    requires
        d < 10,
    ensures
        r@ == seq![digit_char(d as nat)],
{
    let r = if d == 0 {
        "0"
    } else if d == 1 {
        "1"
    } else if d == 2 {
        "2"
    } else if d == 3 {
        "3"
    } else if d == 4 {
        "4"
    } else if d == 5 {
        "5"
    } else if d == 6 {
        "6"
    } else if d == 7 {
        "7"
    } else if d == 8 {
        "8"
    } else {
        "9"
    };
    proof {
        reveal_strlit("0");
        reveal_strlit("1");
        reveal_strlit("2");
        reveal_strlit("3");
        reveal_strlit("4");
        reveal_strlit("5");
        reveal_strlit("6");
        reveal_strlit("7");
        reveal_strlit("8");
        reveal_strlit("9");
        assert(r@ =~= seq![digit_char(d as nat)]);
    }
    r
}

/// A count as a decimal string: no sign and no padding.
pub fn format_result(result: usize) -> (r: String)
    ensures
        r@ == dec_str(result as nat),
    decreases result,
{
    if result < 10 {
        digit_str(result).to_owned()
    } else {
        let mut s = format_result(result / 10);
        s.append(digit_str(result % 10));
        proof {
            assert(s@ =~= dec_str(result as nat / 10).push(digit_char(result as nat % 10)));
        }
        s
    }
}

/// The one output line a run prints: the selected count alone, or, with no
/// mode selected, the line, word and byte counts followed by the display
/// name, space-separated.
pub open spec fn render_spec(mode: Option<CountType>, s: Seq<char>, name: Seq<char>) -> Seq<char> {
    match mode {
        Some(CountType::Bytes) => dec_str(byte_count(s)),
        Some(CountType::Lines) => dec_str(line_count(s)),
        Some(CountType::Words) => dec_str(word_count(s)),
        Some(CountType::Characters) => dec_str(char_count(s)),
        None => dec_str(line_count(s)) + seq![' '] + dec_str(word_count(s)) + seq![' '] + dec_str(
            byte_count(s),
        ) + seq![' '] + name,
    }
}

/// Computes the requested count(s) of the text and renders the output line.
pub fn render_output(count_type: Option<CountType>, contents: &str, display_name: &str) -> (r:
    String)
    ensures
        r@ == render_spec(count_type, contents@, display_name@),
{
    match count_type {
        Some(CountType::Bytes) => format_result(count_bytes(contents)),
        Some(CountType::Lines) => format_result(count_lines(contents)),
        Some(CountType::Words) => format_result(count_words(contents)),
        Some(CountType::Characters) => format_result(count_characters(contents)),
        None => {
            let mut s = format_result(count_lines(contents));
            s.append(" ");
            let words = format_result(count_words(contents));
            s.append(words.as_str());
            s.append(" ");
            let bytes = format_result(count_bytes(contents));
            s.append(bytes.as_str());
            s.append(" ");
            s.append(display_name);
            proof {
                reveal_strlit(" ");
                assert(" "@ =~= seq![' ']);
                assert(s@ =~= render_spec(count_type, contents@, display_name@));
            }
            s
        },
    }
}

} // verus!
