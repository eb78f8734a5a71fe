use textcount::format_result;
use textcount::render_output;
use textcount::CountType;

#[test]
fn format_single_digits() {
    assert_eq!(format_result(0), "0");
    assert_eq!(format_result(7), "7");
}

#[test]
fn format_multiple_digits() {
    assert_eq!(format_result(12), "12");
    assert_eq!(format_result(100), "100");
    assert_eq!(format_result(987654321), "987654321");
}

#[test]
fn format_then_parse_round_trips() {
    for n in [0usize, 1, 9, 10, 42, 1000, 65535, 123456789] {
        let rendered = format_result(n);
        assert_eq!(rendered.parse::<usize>().unwrap(), n);
    }
}

#[test]
fn selected_mode_prints_the_single_count() {
    let text = "hello world\n";
    assert_eq!(render_output(Some(CountType::Words), text, ""), "2");
    assert_eq!(render_output(Some(CountType::Bytes), text, ""), "12");
    assert_eq!(render_output(Some(CountType::Lines), text, ""), "1");
    assert_eq!(render_output(Some(CountType::Characters), text, ""), "12");
}

#[test]
fn character_mode_counts_scalars() {
    assert_eq!(render_output(Some(CountType::Characters), "h\u{e9}llo", ""), "5");
    assert_eq!(render_output(Some(CountType::Bytes), "h\u{e9}llo", ""), "6");
}

#[test]
fn triple_count_prints_lines_words_bytes_and_name() {
    let out = render_output(None, "line one\nline two\n", "notes.txt");
    assert_eq!(out, "2 4 18 notes.txt");
}

#[test]
fn triple_count_with_standard_input_has_empty_name() {
    let out = render_output(None, "a b\n", "");
    assert_eq!(out, "1 2 4 ");
}
