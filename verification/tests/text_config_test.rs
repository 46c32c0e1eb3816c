use oak_website_backend::config::{
    default_docs_update_interval_hours, DocsConfig,
};
use oak_website_backend::text::{
    chars_of, str_concat, str_contains, str_contains_char, str_ends_with, str_eq, str_le,
    str_starts_with, string_from_range, trim, trim_end_char,
};

fn docs(hours: u64) -> DocsConfig {
    DocsConfig { html_dir: "/tmp/docs".to_string(), git_url: None, update_interval_hours: hours }
}

#[test]
fn docs_sync_interval_is_at_least_an_hour() {
    assert_eq!(default_docs_update_interval_hours(), 24);
    assert_eq!(docs(24).sync_interval_secs(), 86400);
    assert_eq!(docs(1).sync_interval_secs(), 3600);
    assert_eq!(docs(0).sync_interval_secs(), 3600);
}

#[test]
fn trimming() {
    assert_eq!(trim("  a b \t\n"), "a b");
    assert_eq!(trim("\u{3000}x\u{a0}"), "x");
    assert_eq!(trim("   "), "");
    assert_eq!(trim_end_char("https://x.org///", '/'), "https://x.org");
    assert_eq!(trim_end_char("abc", '/'), "abc");
}

#[test]
fn searching_and_comparing() {
    assert!(str_contains("oak-debug-1", "debug"));
    assert!(!str_contains("oak", "debug"));
    assert!(str_contains("oak", ""));
    assert!(str_ends_with("file.tar.gz", ".tar.gz"));
    assert!(!str_ends_with("gz", ".tar.gz"));
    assert!(str_starts_with("image/png", "image/"));
    assert!(!str_starts_with("text/plain", "image/"));
    assert!(str_eq("a", "a"));
    assert!(!str_eq("a", "ab"));
    assert!(str_contains_char("a@b", '@'));
    assert!(!str_contains_char("ab", '@'));
    assert!(str_le("aaa", "zzz"));
    assert!(str_le("ab", "abc"));
    assert!(!str_le("b", "abc"));
    assert!(str_le("same", "same"));
}

#[test]
fn building_strings() {
    assert_eq!(str_concat("ab", "cd"), "abcd");
    let cs = chars_of("héllo");
    assert_eq!(cs, vec!['h', 'é', 'l', 'l', 'o']);
    assert_eq!(string_from_range(&cs, 1, 3), "él");
}
