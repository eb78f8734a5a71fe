//! The executable counting functions, each proved against its model in
//! [`crate::model`].

use vstd::prelude::*;
use vstd::string::StrSliceExecFns;

use crate::model::byte_count;
use crate::model::char_count;
use crate::model::is_space;
use crate::model::line_count;
use crate::model::newline_count;
use crate::model::word_count;

verus! {

/// Number of bytes in the text's UTF-8 representation.
pub fn count_bytes(contents: &str) -> (r: usize)
    ensures
        r == byte_count(contents@),
{
    contents.as_bytes().len()
}

/// Number of Unicode scalar values in the text.
pub fn count_characters(contents: &str) -> (r: usize)
    ensures
        r == char_count(contents@),
{
    contents.unicode_len()
}

/// Number of terminator-delimited line segments; a trailing `'\n'` does not
/// open an extra empty segment.
pub fn count_lines(contents: &str) -> (r: usize)
    ensures
        r == line_count(contents@),
{
    let n = contents.unicode_len();
    if n == 0 {
        return 0;
    }
    let mut nl: usize = 0;
    let mut i: usize = 0;
    while i < n
        invariant
            n == contents@.len(),
            i <= n,
            nl <= i,
            nl == newline_count(contents@.subrange(0, i as int)),
            i > 0 && contents@[i - 1] != '\n' ==> nl < i,
        decreases n - i,
    {
        let c = contents.get_char(i);
        proof {
            assert(contents@.subrange(0, i + 1).drop_last() =~= contents@.subrange(0, i as int));
        }
        if c == '\n' {
            nl = nl + 1;
        }
        i = i + 1;
    }
    proof {
        assert(contents@.subrange(0, n as int) =~= contents@);
    }
    let last = contents.get_char(n - 1);
    if last == '\n' {
        nl
    } else {
        nl + 1
    }
}

/// Number of maximal whitespace-delimited non-empty tokens: any run of
/// whitespace separates, and leading or trailing whitespace adds no token.
pub fn count_words(contents: &str) -> (r: usize)
    ensures
        r == word_count(contents@),
{
    let n = contents.unicode_len();
    let mut words: usize = 0;
    let mut prev_space = true;
    let mut i: usize = 0;
    while i < n
        invariant
            n == contents@.len(),
            i <= n,
            words <= i,
            words == word_count(contents@.subrange(0, i as int)),
            i == 0 ==> prev_space,
            i > 0 ==> prev_space == is_space(contents@[i - 1]),
        decreases n - i,
    {
        let c = contents.get_char(i);
        let sp = is_space_char(c);
        proof {
            assert(contents@.subrange(0, i + 1).drop_last() =~= contents@.subrange(0, i as int));
        }
        if !sp && prev_space {
            words = words + 1;
        }
        prev_space = sp;
        i = i + 1;
    }
    proof {
        assert(contents@.subrange(0, n as int) =~= contents@);
    }
    words
}

/// Whether the character separates words: the Unicode `White_Space` set.
fn is_space_char(c: char) -> (r: bool)
    ensures
        r == is_space(c),
{
    let u = c as u32;
    (9 <= u && u <= 13) || u == 32 || u == 0x85 || u == 0xA0 || u == 0x1680 || (0x2000 <= u && u
        <= 0x200A) || u == 0x2028 || u == 0x2029 || u == 0x202F || u == 0x205F || u == 0x3000
}

} // verus!
