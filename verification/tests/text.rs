use garedit::chars::{is_whitespace, is_word_char, to_lower};
use garedit::newline::{
    detect_newline_style, join_lines, normalize_newlines, split_lines, NewlineStyle,
};
use garedit::number::{parse_usize, to_decimal};
use garedit::text::{
    contains, find_from, is_fuzzy_subsequence, rfind_to, slice_to_column, split_at_char,
    split_whitespace, starts_with, str_equal, to_ascii_lowercase, to_chars, trim,
};
use garedit::word::{next_word_boundary_in_line, prev_word_boundary_in_line};

#[test]
fn white_space_is_what_unicode_says() {
    for n in 0..=0x10ffffu32 {
        if let Some(c) = char::from_u32(n) {
            assert_eq!(is_whitespace(c), c.is_whitespace(), "{n:x}");
        }
    }
}

#[test]
fn lower_case_and_word_chars_are_ascii() {
    for n in 0..0x300u32 {
        if let Some(c) = char::from_u32(n) {
            assert_eq!(to_lower(c), c.to_ascii_lowercase());
            assert_eq!(is_word_char(c), c.is_ascii_alphanumeric() || c == '_', "{n:x}");
        }
    }
}

#[test]
fn strings_behave_like_std() {
    let samples = ["", " ", "a", " Foo  bar\t", "\u{a0}x\u{3000}", "ab ab", "naïve Ünï", "\r\nline\n"];
    for s in samples {
        assert_eq!(trim(s), s.trim());
        assert_eq!(to_ascii_lowercase(s), s.to_ascii_lowercase());
        let words: Vec<&str> = s.split_whitespace().collect();
        assert_eq!(split_whitespace(s), words);
        let pieces: Vec<&str> = s.split('b').collect();
        assert_eq!(split_at_char(s, 'b'), pieces);
        for t in samples {
            assert_eq!(contains(s, t), s.contains(t));
            assert_eq!(starts_with(s, t), s.starts_with(t));
            assert_eq!(str_equal(s, t), s == t);
        }
    }
}

#[test]
fn substring_places_are_columns() {
    let hay = to_chars("äbäbä");
    let needle = to_chars("äb");
    assert_eq!(find_from(&hay, &needle, 0), Some(0));
    assert_eq!(find_from(&hay, &needle, 1), Some(2));
    assert_eq!(find_from(&hay, &needle, 3), None);
    assert_eq!(rfind_to(&hay, &needle, 5), Some(2));
    assert_eq!(rfind_to(&hay, &needle, 3), Some(0));
    assert_eq!(rfind_to(&hay, &needle, 1), None);
}

#[test]
fn fuzzy_subsequences() {
    assert!(is_fuzzy_subsequence("open file", ""));
    assert!(is_fuzzy_subsequence("open file", "opf"));
    assert!(is_fuzzy_subsequence("open file", "of"));
    assert!(!is_fuzzy_subsequence("open file", "fo"));
    assert!(!is_fuzzy_subsequence("", "a"));
}

#[test]
fn prefixes_of_lines() {
    assert_eq!(slice_to_column("grün", 0), "");
    assert_eq!(slice_to_column("grün", 3), "grü");
    assert_eq!(slice_to_column("grün", 4), "grün");
    assert_eq!(slice_to_column("grün", 9), "grün");
}

#[test]
fn numbers_are_written_and_read() {
    for n in [0usize, 7, 10, 99, 100, 12345, usize::MAX] {
        let s = to_decimal(n as u128);
        assert_eq!(s, n.to_string());
        assert_eq!(parse_usize(&s), Some(n));
    }
    for s in ["", "+", "-1", "+5", "007", " 1", "1 ", "12a", "99999999999999999999999"] {
        assert_eq!(parse_usize(s), s.parse::<usize>().ok(), "{s}");
    }
}

#[test]
fn newlines_are_normalized() {
    assert_eq!(normalize_newlines("a\r\nb\rc\nd"), "a\nb\nc\nd");
    assert_eq!(normalize_newlines("a\r\r\nb"), "a\n\nb");
    assert_eq!(normalize_newlines(&normalize_newlines("x\r\ny\r")), "x\ny\n");
    assert_eq!(detect_newline_style("a\nb"), NewlineStyle::Lf);
    assert_eq!(detect_newline_style("a\nb\r\nc"), NewlineStyle::Crlf);
    assert_eq!(detect_newline_style("a\rb"), NewlineStyle::Lf);
}

#[test]
fn lines_are_split_and_joined() {
    for text in ["", "a", "a\nb", "a\n", "\n\n"] {
        let lines = split_lines(text);
        let expected: Vec<&str> = text.split('\n').collect();
        assert_eq!(lines, expected);
        assert_eq!(join_lines(&lines, "\n"), text);
    }
    let lines = split_lines("x\ny");
    assert_eq!(join_lines(&lines, NewlineStyle::Crlf.delimiter()), "x\r\ny");
    assert_eq!(join_lines(&lines, NewlineStyle::Lf.delimiter()), "x\ny");
}

#[test]
fn word_boundaries_within_a_line() {
    let line = "foo::bar  baz";
    assert_eq!(next_word_boundary_in_line(line, 0), 5);
    assert_eq!(prev_word_boundary_in_line(line, 13), 10);
    assert_eq!(prev_word_boundary_in_line(line, 0), 0);
    assert_eq!(next_word_boundary_in_line(line, 13), 13);
    assert_eq!(next_word_boundary_in_line(line, 99), 13);
}
