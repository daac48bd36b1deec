use postern_daemon::text::{
    chars_of, contains_text, decimal_of, parse_long_number, parse_number, precedes, same_text,
    starts_with, trim,
};

fn number(s: &str) -> Option<u32> {
    parse_number(&chars_of(s))
}

#[test]
fn numbers_are_read_as_the_standard_library_does() {
    for s in ["0", "7", "+7", "007", "4294967295", "4294967296", "", "+", "-1", " 1", "1 ", "1a", "++1"] {
        assert_eq!(number(s), s.parse::<u32>().ok(), "{:?}", s);
    }
    for s in ["18446744073709551615", "18446744073709551616", "+0", "x"] {
        assert_eq!(parse_long_number(s), s.parse::<u64>().ok(), "{:?}", s);
    }
}

#[test]
fn numbers_are_written_as_the_standard_library_does() {
    for n in [0u64, 9, 10, 99, 100, 1234567890, u64::MAX] {
        assert_eq!(decimal_of(n), n.to_string());
        assert_eq!(parse_long_number(&decimal_of(n)), Some(n));
    }
}

#[test]
fn order_is_the_one_of_str() {
    let words = ["", "a", "ab", "b", "B", "é", "z", "日本", "𝄞", "\u{ffff}"];
    for a in words {
        for b in words {
            assert_eq!(precedes(a, b), a < b, "{:?} {:?}", a, b);
            assert_eq!(same_text(a, b), a == b);
        }
    }
}

#[test]
fn search_is_the_one_of_str() {
    for (s, p) in [("", ""), ("abc", ""), ("abc", "bc"), ("abc", "cb"), ("aab", "ab"), ("密码", "码")] {
        assert_eq!(contains_text(s, p), s.contains(p));
        assert_eq!(starts_with(s, p), s.starts_with(p));
    }
}

#[test]
fn trimming_is_the_one_of_str() {
    for s in ["", "  ", " a ", "\u{3000}x\u{2009}", "a b", "\u{200b}x", "\u{85}y\u{a0}", "\tz\u{b}"] {
        let t = trim(&chars_of(s));
        assert_eq!(t.iter().collect::<String>(), s.trim(), "{:?}", s);
    }
}

#[test]
fn every_white_space_character_is_trimmed() {
    for n in 0..0x3100u32 {
        if let Some(c) = char::from_u32(n) {
            assert_eq!(trim(&vec![c]).is_empty(), c.is_whitespace(), "{:x}", n);
        }
    }
}
