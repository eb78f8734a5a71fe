use textcount::count_bytes;
use textcount::count_characters;
use textcount::count_lines;
use textcount::count_words;

#[test]
fn words_empty_text() {
    assert_eq!(count_words(""), 0);
}

#[test]
fn words_only_whitespace() {
    assert_eq!(count_words("   "), 0);
    assert_eq!(count_words(" \t\n  \r\n "), 0);
}

#[test]
fn words_runs_of_whitespace_separate() {
    assert_eq!(count_words("a b  c"), 3);
}

#[test]
fn words_leading_and_trailing_whitespace() {
    assert_eq!(count_words("  hello   world  "), 2);
    assert_eq!(count_words("\tone\n"), 1);
}

#[test]
fn words_unicode_whitespace_separates() {
    // No-break space and ideographic space both carry the White_Space property.
    assert_eq!(count_words("a\u{a0}b"), 2);
    assert_eq!(count_words("a\u{3000}b"), 2);
}

#[test]
fn lines_empty_text() {
    assert_eq!(count_lines(""), 0);
}

#[test]
fn lines_without_trailing_terminator() {
    assert_eq!(count_lines("a"), 1);
    assert_eq!(count_lines("one\ntwo"), 2);
}

#[test]
fn lines_trailing_terminator_adds_no_segment() {
    assert_eq!(count_lines("hello world\n"), 1);
    assert_eq!(count_lines("\n"), 1);
    assert_eq!(count_lines("line one\nline two\n"), 2);
}

#[test]
fn lines_empty_segment_in_the_middle_counts() {
    assert_eq!(count_lines("a\n\nb"), 3);
}

#[test]
fn lines_carriage_return_does_not_split() {
    assert_eq!(count_lines("a\r\nb"), 2);
    assert_eq!(count_lines("a\rb"), 1);
}

#[test]
fn bytes_ascii() {
    assert_eq!(count_bytes(""), 0);
    assert_eq!(count_bytes("hello world\n"), 12);
}

#[test]
fn bytes_multibyte_encoding() {
    assert_eq!(count_bytes("\u{e9}"), 2);
    assert_eq!(count_bytes("\u{65e5}\u{672c}\u{8a9e}"), 9);
}

#[test]
fn characters_count_scalars_not_bytes() {
    assert_eq!(count_characters("h\u{e9}llo"), 5);
    assert_eq!(count_characters("\u{65e5}\u{672c}\u{8a9e}"), 3);
    assert_eq!(count_characters(""), 0);
}

#[test]
fn characters_never_exceed_bytes() {
    for text in ["", "ascii only", "h\u{e9}llo", "\u{65e5}\u{672c}\u{8a9e}", "a\u{a0}b"] {
        assert!(count_characters(text) <= count_bytes(text));
    }
}

#[test]
fn characters_equal_bytes_exactly_on_ascii() {
    assert_eq!(count_characters("ascii only"), count_bytes("ascii only"));
    assert!(count_characters("h\u{e9}llo") < count_bytes("h\u{e9}llo"));
}
