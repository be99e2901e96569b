use ethproofs_client::text::{
    chars_of, is_whitespace_char, parse_u64, split_words, str_eq, string_of, u128_to_decimal,
    u64_to_decimal,
};

#[test]
fn decimal_notation() {
    assert_eq!(u64_to_decimal(0), "0");
    assert_eq!(u64_to_decimal(7), "7");
    assert_eq!(u64_to_decimal(10), "10");
    assert_eq!(u64_to_decimal(u64::MAX), "18446744073709551615");
    assert_eq!(u128_to_decimal(u128::MAX), u128::MAX.to_string());
}

#[test]
fn parse_u64_matches_from_str() {
    for s in [
        "0", "00", "+0", "+", "-", "-0", "", " 1", "1 ", "12a", "123", "+123",
        "18446744073709551615", "18446744073709551616", "99999999999999999999", "٣",
    ] {
        assert_eq!(parse_u64(s), s.parse::<u64>().ok(), "input {:?}", s);
    }
}

#[test]
fn whitespace_matches_char_is_whitespace() {
    for c in ['\t', '\n', '\u{b}', '\u{c}', '\r', ' ', '\u{85}', '\u{a0}', '\u{1680}',
        '\u{2000}', '\u{200a}', '\u{2028}', '\u{2029}', '\u{202f}', '\u{205f}', '\u{3000}',
        'a', '0', '\u{200b}', '\u{180e}', '\u{feff}', '\u{1f}', '\u{8}'] {
        assert_eq!(is_whitespace_char(c), c.is_whitespace(), "char {:?}", c);
    }
}

#[test]
fn split_words_matches_split_whitespace() {
    for s in ["", "  ", "a", " a b  c ", "queued\t12\n", "x\u{3000}y\u{85}z", "é ü"] {
        let words: Vec<String> = split_words(&chars_of(s))
            .iter()
            .map(|w| string_of(w))
            .collect();
        let expected: Vec<String> = s.split_whitespace().map(|w| w.to_string()).collect();
        assert_eq!(words, expected, "input {:?}", s);
    }
}

#[test]
fn string_helpers() {
    assert_eq!(chars_of("añb"), vec!['a', 'ñ', 'b']);
    assert_eq!(string_of(&['x', 'ÿ']), "xÿ");
    assert!(str_eq("abc", "abc"));
    assert!(!str_eq("abc", "abd"));
    assert!(!str_eq("ab", "abc"));
}
