use keyflow::text::{
    concat_str, decimal_string, hex_padded, parse_u32_chars, split_chars, str_contains, trim_str,
};

#[test]
fn trimming() {
    assert_eq!(trim_str("  a b \t\n"), "a b");
    assert_eq!(trim_str("\u{3000}x\u{a0}"), "x");
    assert_eq!(trim_str("   "), "");
}

#[test]
fn splitting_keeps_empty_pieces() {
    let v: Vec<char> = "a++b+".chars().collect();
    let parts: Vec<String> = split_chars(&v, '+').into_iter().map(|p| p.into_iter().collect()).collect();
    assert_eq!(parts, vec!["a", "", "b", ""]);
    let e: Vec<char> = Vec::new();
    assert_eq!(split_chars(&e, '+').len(), 1);
}

#[test]
fn numbers() {
    let digits = |s: &str| -> Vec<char> { s.chars().collect() };
    assert_eq!(parse_u32_chars(&digits("24")), Some(24));
    assert_eq!(parse_u32_chars(&digits("+7")), Some(7));
    assert_eq!(parse_u32_chars(&digits("007")), Some(7));
    assert_eq!(parse_u32_chars(&digits("4294967295")), Some(u32::MAX));
    assert_eq!(parse_u32_chars(&digits("4294967296")), None);
    assert_eq!(parse_u32_chars(&digits("")), None);
    assert_eq!(parse_u32_chars(&digits("+")), None);
    assert_eq!(parse_u32_chars(&digits("1a")), None);
    assert_eq!(decimal_string(0), "0");
    assert_eq!(decimal_string(1234567890123), "1234567890123");
    assert_eq!(hex_padded(0x20, 4), "0020");
    assert_eq!(hex_padded(0xffc4, 4), "FFC4");
    assert_eq!(hex_padded(0x1ffc4, 4), "1FFC4");
}

#[test]
fn searching_and_joining() {
    assert!(str_contains("abc", "bc"));
    assert!(str_contains("abc", ""));
    assert!(!str_contains("ab", "abc"));
    assert_eq!(concat_str("ab", "cd"), "abcd");
}
