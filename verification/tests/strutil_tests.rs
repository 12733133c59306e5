use example_runner::strutil::{lex_le_str, str_contains, str_ends_with, str_eq, str_starts_with, u64_to_string};

#[test]
fn decimal_rendering_is_exact() {
    assert_eq!(u64_to_string(0), "0");
    assert_eq!(u64_to_string(7), "7");
    assert_eq!(u64_to_string(60), "60");
    assert_eq!(u64_to_string(12345), "12345");
    assert_eq!(u64_to_string(u64::MAX), "18446744073709551615");
}

#[test]
fn substring_search_finds_inner_runs() {
    assert!(str_contains("chip BOOT ok", "BOOT"));
    assert!(str_contains("BOOT", "BOOT"));
    assert!(str_contains("anything", ""));
    assert!(!str_contains("chip boot ok", "BOOT"));
    assert!(!str_contains("BO OT", "BOOT"));
    assert!(!str_contains("", "BOOT"));
}

#[test]
fn equality_and_affix_tests() {
    assert!(str_eq("steps:", "steps:"));
    assert!(!str_eq("steps:", "steps"));
    assert!(str_ends_with("blinky.rs", ".rs"));
    assert!(!str_ends_with("blinky.txt", ".rs"));
    assert!(!str_ends_with("rs", ".rs"));
    assert!(str_starts_with("- wait-serial: x", "- wait-serial: "));
    assert!(!str_starts_with("-wait-serial: x", "- wait-serial: "));
}

#[test]
fn lexicographic_order_on_names() {
    assert!(lex_le_str("alarm", "blinky"));
    assert!(!lex_le_str("blinky", "alarm"));
    assert!(lex_le_str("ab", "abc"));
    assert!(!lex_le_str("abc", "ab"));
    assert!(lex_le_str("same", "same"));
}
