use multi_effect::text::{
    contains,
    decimal_string, is_whitespace, parse_i32, parse_u8, rsplit_once, split_once, starts_with,
    str_eq, trim,
};

#[test]
fn trimming() {
    assert_eq!(trim("  a b \t\n"), "a b");
    assert_eq!(trim(""), "");
    assert!(is_whitespace('\u{3000}'));
    assert!(!is_whitespace('x'));
}

#[test]
fn splitting() {
    assert_eq!(split_once("a.b.c", '.'), Some(("a", "b.c")));
    assert_eq!(rsplit_once("a.b.c", '.'), Some(("a.b", "c")));
    assert_eq!(split_once("abc", '.'), None);
    assert!(starts_with("CTRL 1 2", "CTRL "));
    assert!(!starts_with("CTR", "CTRL "));
    assert!(str_eq("x", "x"));
}

#[test]
fn byte_numbers() {
    assert_eq!(parse_u8("0"), Some(0));
    assert_eq!(parse_u8("+255"), Some(255));
    assert_eq!(parse_u8("256"), None);
    assert_eq!(parse_u8("-1"), None);
    assert_eq!(parse_u8(""), None);
    assert_eq!(parse_u8("007"), Some(7));
}

#[test]
fn signed_numbers() {
    assert_eq!(parse_i32("-2147483648"), Some(i32::MIN));
    assert_eq!(parse_i32("2147483647"), Some(i32::MAX));
    assert_eq!(parse_i32("2147483648"), None);
    assert_eq!(parse_i32("+12"), Some(12));
    assert_eq!(parse_i32("1.5"), None);
    assert_eq!(parse_i32("-"), None);
}

#[test]
fn decimal_round_trip() {
    for n in [0u8, 7, 10, 99, 200, 255] {
        assert_eq!(parse_u8(&decimal_string(n as u64)), Some(n));
    }
    for n in [0i32, -1, 42, i32::MIN, i32::MAX] {
        assert_eq!(parse_i32(&n.to_string()), Some(n));
    }
    assert_eq!(decimal_string(1234567890123), "1234567890123");
}

#[test]
fn substring_search() {
    assert!(contains("Launchkey MK3", "key M"));
    assert!(contains("abc", ""));
    assert!(contains("abc", "abc"));
    assert!(!contains("abc", "abcd"));
    assert!(!contains("abc", "ac"));
    assert!(contains("ééx", "éx"));
}
