use nah::text::{
    i64_to_string, parse_u64, split_text, starts_with, strip_line_end,
    strip_prefix, trim, u64_to_string,
};

#[test]
fn plain_decimal_is_read_strictly() {
    assert_eq!(parse_u64("0"), Some(0));
    assert_eq!(parse_u64("4096"), Some(4096));
    assert_eq!(parse_u64("18446744073709551615"), Some(u64::MAX));
    assert_eq!(parse_u64("18446744073709551616"), None);
    assert_eq!(parse_u64("99999999999999999999999"), None);
    assert_eq!(parse_u64(""), None);
    assert_eq!(parse_u64("007"), None);
    assert_eq!(parse_u64("-1"), None);
    assert_eq!(parse_u64("+1"), None);
    assert_eq!(parse_u64("1.0"), None);
    assert_eq!(parse_u64("12a"), None);
}

#[test]
fn numbers_are_written_in_decimal() {
    for n in [0u64, 7, 10, 99, 100, 4096, u64::MAX] {
        assert_eq!(u64_to_string(n), n.to_string());
        assert_eq!(parse_u64(&u64_to_string(n)), Some(n));
    }
    for i in [0i64, -1, 1, -10, 201, i64::MIN, i64::MAX] {
        assert_eq!(i64_to_string(i), i.to_string());
    }
}

#[test]
fn trim_takes_white_space_off_both_ends_as_std_does() {
    let cases = [
        "",
        " ",
        "a",
        "  a b \t\r\n",
        "\u{0085}x\u{00A0}",
        "\u{1680}\u{2000}\u{200A}y\u{2028}\u{2029}\u{202F}\u{205F}\u{3000}",
        "\u{200B}z\u{200B}",
        "\u{000B}\u{000C}w",
        "\u{001F}v",
    ];
    for s in cases {
        assert_eq!(trim(s), s.trim());
    }
}

#[test]
fn every_character_is_white_space_exactly_when_std_says_so() {
    for code in 0u32..0x3100 {
        if let Some(c) = char::from_u32(code) {
            let s = format!("{}x{}", c, c);
            assert_eq!(trim(&s), s.trim());
        }
    }
}

#[test]
fn split_cuts_at_every_separator_as_std_does() {
    let cases = [
        ("", "\n"),
        ("a", "\n"),
        ("a\nb", "\n"),
        ("a\n", "\n"),
        ("\n\na", "\n"),
        ("a\n\n\nb", "\n\n"),
        ("data: x\n\ndata: y\n\n", "\n\n"),
        ("abab", "ab"),
        ("aaa", "aa"),
        ("x", "xyz"),
    ];
    for (s, sep) in cases {
        let expected: Vec<String> = s.split(sep).map(|p| p.to_owned()).collect();
        assert_eq!(split_text(s, sep), expected);
    }
}

#[test]
fn prefixes_are_found_and_taken_off() {
    assert!(starts_with("data: x", "data: "));
    assert!(!starts_with("dat", "data: "));
    assert!(starts_with("x", ""));
    assert_eq!(strip_prefix("data: x", "data: "), Some("x".to_owned()));
    assert_eq!(strip_prefix("xdata: ", "data: "), None);
    assert_eq!(strip_prefix("data: data: x", "data: "), Some("data: x".to_owned()));
}

#[test]
fn one_newline_is_taken_off_the_end_of_a_line() {
    assert_eq!(strip_line_end("{}\n"), "{}");
    assert_eq!(strip_line_end("{}\n\n"), "{}\n");
    assert_eq!(strip_line_end("{}"), "{}");
    assert_eq!(strip_line_end(""), "");
}

#[test]
fn a_typed_number_is_read_as_std_reads_it() {
    for s in ["0", "5000", "+5", "007", "+", "", "-0", "-1", "1_000", " 1", "18446744073709551615", "18446744073709551616", "+0018446744073709551615", "1e3"] {
        assert_eq!(nah::text::parse_typed_u64(s), s.parse::<u64>().ok(), "{:?}", s);
    }
}
