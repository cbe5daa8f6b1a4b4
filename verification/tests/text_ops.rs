use mcmappings_sqlite::text::{
    chars_of, lines_of, parse_i64, split_vec, trim_vec, words_vec, remove_char_vec, find,
    to_string, starts_with, ends_with,
};

fn s(v: &Vec<char>) -> String {
    to_string(v)
}

#[test]
fn lines_split_at_line_feeds_and_drop_carriage_returns() {
    assert_eq!(lines_of("a\nb\r\nc"), vec!["a", "b", "c"]);
    assert_eq!(lines_of("a\n"), vec!["a"]);
    assert_eq!(lines_of("a\n\n"), vec!["a", ""]);
    assert_eq!(lines_of(""), Vec::<String>::new());
    assert_eq!(lines_of("\n"), vec![""]);
    assert_eq!(lines_of("a\r"), vec!["a\r"]);
    assert_eq!(lines_of("x\ry\n"), vec!["x\ry"]);
}

#[test]
fn lines_agree_with_std_lines() {
    for text in ["", "a", "a\n", "a\r\n", "\r\n\r\n", "one\ntwo\r\nthree\r", "\n\nx", "é\nü\r\n"] {
        let expected: Vec<String> = text.lines().map(String::from).collect();
        assert_eq!(lines_of(text), expected, "text {:?}", text);
    }
}

#[test]
fn final_line_ending_is_optional() {
    assert_eq!(lines_of("a\nb"), lines_of("a\nb\n"));
    assert_eq!(lines_of("a\nb"), lines_of("a\nb\r\n"));
}

#[test]
fn parse_i64_accepts_signed_decimals_only() {
    assert_eq!(parse_i64(&chars_of("42")), Some(42));
    assert_eq!(parse_i64(&chars_of("+7")), Some(7));
    assert_eq!(parse_i64(&chars_of("-0")), Some(0));
    assert_eq!(parse_i64(&chars_of("-9223372036854775808")), Some(i64::MIN));
    assert_eq!(parse_i64(&chars_of("9223372036854775807")), Some(i64::MAX));
    assert_eq!(parse_i64(&chars_of("9223372036854775808")), None);
    assert_eq!(parse_i64(&chars_of("99999999999999999999999999999")), None);
    assert_eq!(parse_i64(&chars_of("")), None);
    assert_eq!(parse_i64(&chars_of("-")), None);
    assert_eq!(parse_i64(&chars_of(" 1")), None);
    assert_eq!(parse_i64(&chars_of("1_0")), None);
}

#[test]
fn parse_i64_agrees_with_std_parse() {
    for text in ["0", "12", "-12", "+12", "", "+", "a", "12a", "٣", "-9223372036854775809", "00012"] {
        assert_eq!(parse_i64(&chars_of(text)), text.parse::<i64>().ok(), "text {:?}", text);
    }
}

#[test]
fn trim_removes_unicode_whitespace_at_both_ends() {
    assert_eq!(s(&trim_vec(&chars_of(" \t a b \u{3000}\n"))), "a b");
    assert_eq!(s(&trim_vec(&chars_of("   "))), "");
    assert_eq!(s(&trim_vec(&chars_of("\u{a0}x\u{2009}"))), "x");
}

#[test]
fn split_keeps_empty_pieces() {
    let pieces: Vec<String> = split_vec(&chars_of("a,,b,"), ',').iter().map(|p| s(p)).collect();
    assert_eq!(pieces, vec!["a", "", "b", ""]);
    let single: Vec<String> = split_vec(&chars_of(""), ',').iter().map(|p| s(p)).collect();
    assert_eq!(single, vec![""]);
}

#[test]
fn words_skip_runs_of_whitespace() {
    let ws: Vec<String> = words_vec(&chars_of("  CL: a\t\tb  ")).iter().map(|p| s(p)).collect();
    assert_eq!(ws, vec!["CL:", "a", "b"]);
    assert!(words_vec(&chars_of(" \t ")).is_empty());
}

#[test]
fn remove_char_and_search() {
    assert_eq!(s(&remove_char_vec(&chars_of("a:b:"), ':')), "ab");
    let text = chars_of("x -> y -> z");
    let pat = chars_of(" -> ");
    assert_eq!(find(&text, &pat, 0), Some(1));
    assert_eq!(find(&text, &pat, 2), Some(6));
    assert_eq!(find(&text, &pat, 7), None);
    assert!(starts_with(&text, &chars_of("x -")));
    assert!(ends_with(&text, &chars_of("> z")));
    assert!(!ends_with(&text, &chars_of("y")));
}
