use rune::labels::{label_with, pretty_id};
use rune::number::{decimal_i32_text, decimal_text, pad_back_text, pad_front_text, parse_i64};
use rune::output::{normalize_output, outputs_match};
use rune::text::{
    comes_before, contains_text, is_white_space_char, join_texts, line_count, lines_of,
    split_text, trim_end_text, trim_text, truncate,
};

fn owned(list: &[&str]) -> Vec<String> {
    list.iter().map(|s| s.to_string()).collect()
}

#[test]
fn outputs_match_ignores_trailing_whitespace() {
    assert!(outputs_match("1 2 3\n", "1 2 3"));
    assert!(outputs_match("1 2 3  \n\n\n", "1 2 3\n"));
    assert!(outputs_match("a\nb \nc\n", "a\nb\nc"));
    assert!(outputs_match("", "\n\n"));
}

#[test]
fn outputs_match_detects_real_differences() {
    assert!(!outputs_match("1 2 3\n", "1 2 4\n"));
    assert!(!outputs_match("a\nb\n", "a\n"));
    // Leading/internal whitespace IS significant.
    assert!(!outputs_match("1 2\n", "1  2\n"));
    assert!(!outputs_match("a\n\nb\n", "a\nb\n"));
}

#[test]
fn pretty_id_formats_sample_ids() {
    assert_eq!(pretty_id("sample-1"), "Sample 1");
}

#[test]
fn truncate_respects_char_boundaries() {
    assert_eq!(truncate("hello", 10), "hello");
    assert_eq!(truncate("hello world", 8), "hello...");
}

#[test]
fn normalized_output_has_no_trailing_white_space() {
    assert_eq!(normalize_output("  a \t\r\n\r\nb\u{3000}\n \n\n"), owned(&["  a", "", "b"]));
    assert_eq!(normalize_output(""), Vec::<String>::new());
    assert_eq!(normalize_output("x"), owned(&["x"]));
}

#[test]
fn normalizing_twice_is_normalizing_once() {
    for s in ["a \n b\n\n", "", "\n\n", "1\r\n2\r\n", "x\n\ny  "] {
        let once = normalize_output(s);
        assert_eq!(normalize_output(&once.join("\n")), once);
    }
}

#[test]
fn white_space_is_that_of_unicode() {
    for c in '\0'..=char::MAX {
        assert_eq!(is_white_space_char(c), c.is_whitespace(), "{c:?}");
    }
}

#[test]
fn lines_and_pieces_are_those_of_the_standard_library() {
    for s in ["", "\n", "a", "a\n", "a\r\nb", "a\rb\r", "\r\n\r\n", "a\n\nb\n\n", "ä—\n…"] {
        let lines: Vec<String> = s.lines().map(|l| l.to_string()).collect();
        assert_eq!(lines_of(s), lines);
        assert_eq!(line_count(s), lines.len());
        let pieces: Vec<String> = s.split('\n').map(|l| l.to_string()).collect();
        assert_eq!(split_text(s, '\n'), pieces);
        assert_eq!(trim_end_text(s), s.trim_end());
        assert_eq!(trim_text(s), s.trim());
    }
    assert_eq!(trim_text("\u{a0} x y\t\n"), "x y");
}

#[test]
fn texts_are_joined_with_a_separator() {
    assert_eq!(join_texts(&owned(&[]), ", "), "");
    assert_eq!(join_texts(&owned(&["a"]), ", "), "a");
    assert_eq!(join_texts(&owned(&["a", "", "c"]), ", "), "a, , c");
}

#[test]
fn texts_are_found_in_texts() {
    assert!(contains_text("nothing to commit, clean", "to commit"));
    assert!(contains_text("abc", ""));
    assert!(contains_text("", ""));
    assert!(!contains_text("ab", "abc"));
    assert!(!contains_text("abab", "ba "));
}

#[test]
fn texts_compare_as_the_standard_library_compares_them() {
    let all = ["", "a", "ab", "b", "dp", "ä", "z", "…", "\u{10000}", "\u{ffff}"];
    for a in all {
        for b in all {
            assert_eq!(comes_before(a, b), a < b, "{a:?} {b:?}");
        }
    }
}

#[test]
fn cut_texts_fit() {
    assert_eq!(truncate("äöüß", 4), "äöüß");
    assert_eq!(truncate("äöüßé", 4), "ä...");
    assert_eq!(truncate("abcdef", 3), "...");
    assert_eq!(truncate("abcdef", 0), "...");
    assert_eq!(truncate("", 0), "");
    assert_eq!(truncate(&truncate("hello world", 8), 8), "hello...");
    assert_eq!(truncate(&truncate("hello world", 1), 1), "...");
}

#[test]
fn labels_begin_with_a_capital() {
    assert_eq!(pretty_id(""), "");
    assert_eq!(pretty_id("-x-y"), " x y");
    assert_eq!(pretty_id("ärger-2"), "Ärger 2");
    assert_eq!(pretty_id("ßa"), "SSa");
    assert_eq!(pretty_id("1-a"), "1 a");
    assert_eq!(pretty_id("Z"), "Z");
    assert_eq!(label_with("sample-1", "S"), "Sample 1");
    assert_eq!(label_with("", "S"), "");
}

#[test]
fn numbers_are_written_in_decimal() {
    assert_eq!(decimal_text(0), "0");
    assert_eq!(decimal_text(1900), "1900");
    assert_eq!(decimal_text(u64::MAX), "18446744073709551615");
    assert_eq!(decimal_i32_text(-17), "-17");
    assert_eq!(decimal_i32_text(0), "0");
    assert_eq!(decimal_i32_text(i32::MIN), "-2147483648");
    assert_eq!(decimal_i32_text(i32::MAX), "2147483647");
}

#[test]
fn texts_are_padded() {
    assert_eq!(pad_front_text("7", '0', 2), "07");
    assert_eq!(pad_front_text("123", '0', 2), "123");
    assert_eq!(pad_back_text("ab", 4), "ab  ");
    assert_eq!(pad_back_text("abcd", 2), "abcd");
}

#[test]
fn numbers_are_read_as_the_standard_library_reads_them() {
    let all = [
        "", "0", "-0", "+5", "1900", "-17", " 5", "5 ", "5x", "+", "-", "--5", "1_000", "٣",
        "007", "9223372036854775807", "9223372036854775808", "-9223372036854775808",
        "-9223372036854775809", "99999999999999999999999",
    ];
    for s in all {
        assert_eq!(parse_i64(s), s.parse::<i64>().ok(), "{s:?}");
    }
}
