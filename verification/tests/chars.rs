use sensor_telemetry::chars::{
    contains, contains_char, find_char, lines, parse_i32, parse_i64, parse_u32, parse_u64, split,
    trim, IntegerError,
};

#[test]
fn split_like_the_standard_split() {
    for text in ["", "a", "a|b", "|", "||", "a||b|", "|a", "héllo|wörld"] {
        let expected: Vec<String> = text.split('|').map(|s| s.to_string()).collect();
        assert_eq!(split(text, '|'), expected, "{:?}", text);
    }
}

#[test]
fn lines_like_the_standard_lines() {
    for text in ["", "a", "a\n", "a\nb", "a\r\nb\r\n", "\n", "\n\n", "a\r", "a\r\n", "\r\n", "a\n\nb", "\r", "a\rb\n"] {
        let expected: Vec<String> = text.lines().map(|s| s.to_string()).collect();
        assert_eq!(lines(text), expected, "{:?}", text);
    }
}

#[test]
fn trim_like_the_standard_trim() {
    for text in ["", " ", "a", "  a b  ", "\t\r\n a\u{a0}", "\u{2003}x\u{3000}", "\u{85}y\u{1680}", "\u{200b}z", "\u{180e}q"] {
        assert_eq!(trim(text), text.trim(), "{:?}", text);
    }
    for code in 0..0x3100u32 {
        if let Some(c) = char::from_u32(code) {
            let text = format!("{}x{}", c, c);
            assert_eq!(trim(&text), text.trim(), "{:x}", code);
        }
    }
}

#[test]
fn search_in_text() {
    assert!(contains_char("user@example.com", '@'));
    assert!(!contains_char("user", '@'));
    assert_eq!(find_char("a=b=c", '='), Some(1));
    assert_eq!(find_char("abc", '='), None);
    assert_eq!(find_char("é=", '='), Some(1));
    for (hay, needle) in [("", ""), ("abc", ""), ("abc", "bc"), ("abc", "abcd"), ("abc", "ac"), ("aab", "ab"), ("", "a")] {
        assert_eq!(contains(hay, needle), hay.contains(needle), "{:?} {:?}", hay, needle);
    }
}

#[test]
fn integers_like_the_standard_parse() {
    let texts = [
        "", "0", "-0", "+0", "7", "-7", "+7", "--7", "+-7", "-", "+", " 7", "7 ", "7a", "a7", "007", "-007",
        "2147483647", "2147483648", "-2147483648", "-2147483649", "4294967295", "4294967296",
        "9223372036854775807", "9223372036854775808", "-9223372036854775808", "-9223372036854775809",
        "18446744073709551615", "18446744073709551616", "99999999999999999999999999999999999999999",
        "-99999999999999999999999999999999999999999", "99999999999999999999999999999999999999999x",
        "0000000000000000000000000000000000000000001", "٣", "1_000", "0x10", "1e3",
    ];
    let kind = |error: &std::num::ParseIntError| match error.kind() {
        std::num::IntErrorKind::Empty => IntegerError::Empty,
        std::num::IntErrorKind::InvalidDigit => IntegerError::InvalidDigit,
        std::num::IntErrorKind::PosOverflow => IntegerError::PosOverflow,
        std::num::IntErrorKind::NegOverflow => IntegerError::NegOverflow,
        _ => panic!("an integer error of another kind"),
    };
    for text in texts {
        assert_eq!(parse_i32(text), text.parse::<i32>().map_err(|e| kind(&e)), "{:?}", text);
        assert_eq!(parse_i64(text), text.parse::<i64>().map_err(|e| kind(&e)), "{:?}", text);
        assert_eq!(parse_u32(text), text.parse::<u32>().map_err(|e| kind(&e)), "{:?}", text);
        assert_eq!(parse_u64(text), text.parse::<u64>().map_err(|e| kind(&e)), "{:?}", text);
    }
}

#[test]
fn integer_error_words() {
    for text in ["", "x", "99999999999", "-99999999999"] {
        let expected = text.parse::<i32>().unwrap_err().to_string();
        assert_eq!(parse_i32(text).unwrap_err().message(), expected);
    }
}
