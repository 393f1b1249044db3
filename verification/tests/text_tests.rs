use mpris_popup::text::{
    ascii_lowercase_chars, chars_of, decimal_string, owned, parse_i32_chars, parse_trimmed_i32,
    str_eq, str_starts_with, string_of, trim_chars,
};

#[test]
fn chars_round_trip_through_string() {
    let v = chars_of("héllo, wörld");
    assert_eq!(v.len(), 12);
    assert_eq!(string_of(&v), "héllo, wörld");
    assert_eq!(owned("abc"), "abc");
}

#[test]
fn trim_removes_unicode_white_space() {
    let t: String = trim_chars(" \t\u{a0}text here\u{3000}\n").into_iter().collect();
    assert_eq!(t, "text here");
    let empty: String = trim_chars(" \r\n ").into_iter().collect();
    assert_eq!(empty, "");
    let inner: String = trim_chars("a \u{2028} b").into_iter().collect();
    assert_eq!(inner, "a \u{2028} b");
}

#[test]
fn parse_i32_follows_std() {
    let cases = [
        "42", "+7", "-15", "0", "007", "-2147483648", "2147483647", "2147483648", "-2147483649",
        "", "-", "+", "12a", "+-3", " 5", "99999999999999999999",
    ];
    for c in cases {
        let v = chars_of(c);
        assert_eq!(parse_i32_chars(&v), c.parse::<i32>().ok(), "input {:?}", c);
    }
}

#[test]
fn parse_trimmed_i32_trims_first() {
    assert_eq!(parse_trimmed_i32("  1234\n"), Some(1234));
    assert_eq!(parse_trimmed_i32("\u{a0}-8\t"), Some(-8));
    assert_eq!(parse_trimmed_i32("12 34"), None);
    assert_eq!(parse_trimmed_i32(""), None);
}

#[test]
fn decimal_strings() {
    assert_eq!(decimal_string(0), "0");
    assert_eq!(decimal_string(7), "7");
    assert_eq!(decimal_string(1234), "1234");
    assert_eq!(decimal_string(u64::MAX), u64::MAX.to_string());
}

#[test]
fn prefixes_and_equality() {
    assert!(str_starts_with("https://x", "https://"));
    assert!(!str_starts_with("http", "https://"));
    assert!(str_starts_with("abc", ""));
    assert!(str_eq("same", "same"));
    assert!(!str_eq("same", "sam"));
    assert!(!str_eq("same", "Same"));
}

#[test]
fn ascii_lowercase_keeps_other_characters() {
    let v: String = ascii_lowercase_chars("SpOtIfY Ä").into_iter().collect();
    assert_eq!(v, "spotify Ä");
}

#[test]
fn white_space_matches_std() {
    for u in 0u32..=0x10FFFF {
        if let Some(c) = char::from_u32(u) {
            assert_eq!(
                mpris_popup::text::is_white_space_char(c),
                c.is_whitespace(),
                "U+{:04X}",
                u
            );
        }
    }
}

#[test]
fn trim_matches_std() {
    for s in ["", "  ", "x", " x ", "\u{85}x\u{2029}", "\u{200b}x", "a\tb\n"] {
        let t: String = trim_chars(s).into_iter().collect();
        assert_eq!(t, s.trim());
    }
}
