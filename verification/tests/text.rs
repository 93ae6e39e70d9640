use site_crawler::text::{join_text, decimal_string, starts_with};

#[test]
fn starts_with_agrees_with_std() {
    let cases = [
        ("", ""),
        ("a", ""),
        ("", "a"),
        ("abc", "abc"),
        ("abc", "abcd"),
        ("abcd", "abc"),
        ("abcd", "abd"),
        ("https://example.com/a", "https://example.com"),
        ("héllo", "hé"),
        ("héllo", "he"),
        ("日本語", "日本"),
    ];
    for (s, prefix) in cases {
        assert_eq!(starts_with(s, prefix), s.starts_with(prefix), "{:?} {:?}", s, prefix);
    }
}

#[test]
fn join_text_joins_in_order() {
    assert_eq!(join_text("https://example.com", "/a"), "https://example.com/a");
    assert_eq!(join_text("", "x"), "x");
    assert_eq!(join_text("x", ""), "x");
    assert_eq!(join_text("", ""), "");
}

#[test]
fn decimal_of_small_numbers() {
    assert_eq!(decimal_string(0), "0");
    assert_eq!(decimal_string(7), "7");
    assert_eq!(decimal_string(9), "9");
    assert_eq!(decimal_string(10), "10");
    assert_eq!(decimal_string(99), "99");
    assert_eq!(decimal_string(100), "100");
    assert_eq!(decimal_string(200), "200");
    assert_eq!(decimal_string(404), "404");
    assert_eq!(decimal_string(1024), "1024");
}

#[test]
fn decimal_of_large_numbers() {
    assert_eq!(decimal_string(65535), "65535");
    assert_eq!(decimal_string(1234567890), "1234567890");
    assert_eq!(decimal_string(u64::MAX), "18446744073709551615");
}

#[test]
fn decimal_agrees_with_std_formatting() {
    let mut n: u64 = 1;
    for _ in 0..64 {
        assert_eq!(decimal_string(n), format!("{}", n));
        assert_eq!(decimal_string(n - 1), format!("{}", n - 1));
        n = n.wrapping_mul(3).wrapping_add(1);
    }
}
