use rfrp::auth::verify_token;
use rfrp::msg::ProxyError;
use rfrp::order::comes_before;
use rfrp::table::Table;
use rfrp::text::{
    contains, decode_text, find, fold_case, from_chars, parse_usize, same, show, show_signed,
    split, split_once, starts_with, to_ascii_lowercase, to_chars, trim, white_space,
};

#[test]
fn white_space_is_that_of_unicode() {
    for n in 0..=0x10ffffu32 {
        if let Some(c) = char::from_u32(n) {
            assert_eq!(white_space(c), c.is_whitespace(), "{n:#x}");
        }
    }
}

#[test]
fn trimming_takes_both_ends() {
    for s in ["", " ", "a", "  a b\t\r\n", "\u{3000}x\u{a0}", "a "] {
        assert_eq!(from_chars(&trim(&to_chars(s))), s.trim());
    }
}

#[test]
fn splitting_is_that_of_std() {
    for s in ["", "&", "a&b", "&&", "a=b&c", "x"] {
        let ours: Vec<String> =
            split(&to_chars(s), '&').iter().map(|p| from_chars(p)).collect();
        let theirs: Vec<String> = s.split('&').map(|p| p.to_string()).collect();
        assert_eq!(ours, theirs);
        let ours = split_once(&to_chars(s), '&').map(|(a, b)| (from_chars(&a), from_chars(&b)));
        let theirs = s.split_once('&').map(|(a, b)| (a.to_string(), b.to_string()));
        assert_eq!(ours, theirs);
    }
    assert_eq!(find(&to_chars("a:b:c"), ':'), Some(1));
    assert_eq!(find(&to_chars("abc"), ':'), None);
}

#[test]
fn searching_is_that_of_std() {
    for (s, part) in [("", ""), ("abc", ""), ("abc", "bc"), ("abc", "bcd"), ("aab", "ab"), ("x", "y")] {
        assert_eq!(contains(&to_chars(s), part), s.contains(part));
        assert_eq!(starts_with(&to_chars(s), part), s.starts_with(part));
        assert_eq!(same(s, part), s == part);
    }
}

#[test]
fn cases_are_folded() {
    assert_eq!(fold_case("DEV.Example.COM"), "dev.example.com");
    assert_eq!(fold_case("ÄÖ"), "äö");
    assert_eq!(from_chars(&to_ascii_lowercase(&to_chars("Text/HTML Ä"))), "text/html Ä");
}

#[test]
fn bytes_are_decoded() {
    assert_eq!(decode_text("用户".as_bytes()), "用户");
    assert_eq!(decode_text(b"a\xffb"), String::from_utf8_lossy(b"a\xffb"));
}

#[test]
fn numbers_are_written_in_decimal() {
    for n in [0u64, 9, 10, 99, 100, 12345, u64::MAX] {
        assert_eq!(show(n), n.to_string());
    }
    for n in [0i64, -1, 7, i64::MIN, i64::MAX] {
        assert_eq!(show_signed(n), n.to_string());
    }
}

#[test]
fn numbers_are_read() {
    for s in [
        "", "+", "0", "+7", "007", "-1", "1x", " 1", "18446744073709551615",
        "18446744073709551616", "99999999999999999999999",
    ] {
        assert_eq!(parse_usize(&to_chars(s)), s.parse::<usize>().ok(), "{s}");
    }
}

#[test]
fn tokens_are_compared() {
    assert!(verify_token("secret", "secret"));
    assert!(verify_token("", ""));
    assert!(!verify_token("secret", "secreT"));
    assert!(!verify_token("secret", "secre"));
    assert!(!verify_token("ä", "a"));
}

#[test]
fn texts_are_ordered_as_by_std() {
    for a in ["", "a", "ab", "b", "ä", "Z"] {
        for b in ["", "a", "ab", "b", "ä", "Z"] {
            assert_eq!(comes_before(a, b), a < b, "{a} {b}");
        }
    }
}

#[test]
fn tables_have_unique_keys() {
    let mut t: Table<String, u64> = Table::new();
    t.insert("a".into(), 1);
    t.insert("b".into(), 2);
    t.insert("a".into(), 3);
    assert_eq!(t.len(), 2);
    assert_eq!(t.get(&"a".to_string()), Some(&3));
    assert!(t.contains_key(&"b".to_string()));
    assert_eq!(t.nth(0).0, "a");
    assert_eq!(t.remove(&"a".to_string()), Some(3));
    assert_eq!(t.remove(&"a".to_string()), None);
    assert_eq!(t.len(), 1);
}

#[test]
fn error_codes_round_trip() {
    let all = [
        (ProxyError::InvalidType, "invalid type"),
        (ProxyError::InvalidField, "invalid field"),
        (ProxyError::NameExists, "proxy_name exists"),
        (ProxyError::PortNotAllowed, "port not allowed"),
        (ProxyError::PortOccupied, "port occupied"),
        (ProxyError::DomainConflict, "domain conflict"),
        (ProxyError::TooManyProxies, "too many proxies"),
        (ProxyError::Internal, "internal error"),
    ];
    for (e, code) in all {
        assert_eq!(e.code(), code);
        assert_eq!(ProxyError::from_code(code), Some(e));
        assert_eq!(
            e.is_retryable(),
            e == ProxyError::PortOccupied || e == ProxyError::DomainConflict
        );
    }
    assert_eq!(ProxyError::from_code("something else"), None);
}
