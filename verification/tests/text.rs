use yazelix_helix::grammar_lock::{languages_path, lock_path};
use yazelix_helix::text::{
    chars_of, concat_strs, decimal_string, has_prefix, is_blank_str, is_nonempty_trimmed_str,
    join_path_str, str_eq, string_of, trim_chars,
};

#[test]
fn trimming_follows_unicode_whitespace() {
    let t: String = trim_chars(&chars_of("\u{3000}\t a b \u{85}\u{2029}")).into_iter().collect();
    assert_eq!(t, "a b");
    assert_eq!(t, "\u{3000}\t a b \u{85}\u{2029}".trim());
    assert!(is_blank_str(" \u{a0}\u{202f}"));
    assert!(!is_blank_str(" x "));
    assert!(is_blank_str(""));
    assert!(is_nonempty_trimmed_str("a b"));
    assert!(!is_nonempty_trimmed_str("a "));
    assert!(!is_nonempty_trimmed_str(""));
    // Zero-width space is not whitespace.
    assert!(is_nonempty_trimmed_str("\u{200b}"));
}

#[test]
fn string_helpers() {
    assert_eq!(string_of(&chars_of("héllo")), "héllo");
    assert_eq!(concat_strs("ab", "cd"), "abcd");
    assert!(has_prefix("https://github.com/x", "https://github.com/"));
    assert!(!has_prefix("https://github.co", "https://github.com/"));
    assert!(str_eq("a", "a"));
    assert!(!str_eq("a", "ab"));
    assert_eq!(decimal_string(0), "0");
    assert_eq!(decimal_string(1500), "1500");
    assert_eq!(decimal_string(u128::MAX), u128::MAX.to_string());
}

#[test]
fn path_joining() {
    assert_eq!(join_path_str("/a", "b", false), "/a/b");
    assert_eq!(join_path_str("/a/", "b", false), "/a/b");
    assert_eq!(join_path_str("", "b", false), "b");
    assert_eq!(join_path_str("a\\", "b", false), "a\\/b");
    assert_eq!(join_path_str("C:\\a", "b", true), "C:\\a\\b");
    assert_eq!(join_path_str("C:\\a\\", "b", true), "C:\\a\\b");
    assert_eq!(join_path_str("C:/a/", "b", true), "C:/a/b");
    assert_eq!(join_path_str("C:", "b", true), "C:b");
    assert_eq!(join_path_str("", "b", true), "b");
    assert_eq!(lock_path("/repo", false), "/repo/grammar_sources.lock.json");
    assert_eq!(languages_path("/repo/", false), "/repo/languages.toml");
    assert_eq!(lock_path("D:\\repo", true), "D:\\repo\\grammar_sources.lock.json");
}
