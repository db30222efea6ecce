use postfix_ratelimit::text::decimal_string;
use postfix_ratelimit::text::starts_with;
use postfix_ratelimit::text::strip_prefix_repeated;
use postfix_ratelimit::text::trim_str;

#[test]
fn trimming() {
    assert_eq!(trim_str("  a b \t\n"), "a b");
    assert_eq!(trim_str("\u{3000}x\u{a0}"), "x");
    assert_eq!(trim_str("   "), "");
    assert_eq!(trim_str(""), "");
}

#[test]
fn prefixes() {
    assert!(starts_with("inet:1", "inet:"));
    assert!(!starts_with("ine", "inet:"));
    assert!(starts_with("x", ""));
    assert_eq!(strip_prefix_repeated("ababc", "ab"), "c");
    assert_eq!(strip_prefix_repeated("abc", ""), "abc");
    assert_eq!(strip_prefix_repeated("xab", "ab"), "xab");
}

#[test]
fn decimals() {
    assert_eq!(decimal_string(0), "0");
    assert_eq!(decimal_string(7), "7");
    assert_eq!(decimal_string(120), "120");
    assert_eq!(decimal_string(u64::MAX), u64::MAX.to_string());
}
