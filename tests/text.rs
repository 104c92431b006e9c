use rust_benchmarks::text::{text_contains, text_rsplit_once, text_starts_with, text_strip_prefix};

#[test]
fn contains_finds_runs_anywhere() {
    assert!(text_contains("clippy::unwrap_used", "unwrap_used"));
    assert!(text_contains("abc", "abc"));
    assert!(text_contains("abc", ""));
    assert!(text_contains("", ""));
    assert!(!text_contains("ab", "abc"));
    assert!(!text_contains("clippy::perf", "perf_"));
    assert!(text_contains("αβγδ", "γδ"));
}

#[test]
fn prefixes() {
    assert!(text_starts_with("clippy::x", "clippy::"));
    assert!(!text_starts_with("clippy:", "clippy::"));
    assert!(!text_starts_with("rustc::clippy::x", "clippy::"));
    assert_eq!(text_strip_prefix("http://h/p", "http://"), Some("h/p"));
    assert_eq!(text_strip_prefix("https://h", "http://"), None);
    assert_eq!(text_strip_prefix("é-x", "é"), Some("-x"));
}

#[test]
fn split_at_last_delimiter() {
    assert_eq!(text_rsplit_once("a:b:c", ':'), Some(("a:b", "c")));
    assert_eq!(text_rsplit_once("abc", ':'), None);
    assert_eq!(text_rsplit_once(":", ':'), Some(("", "")));
    assert_eq!(text_rsplit_once("ü:ö", ':'), Some(("ü", "ö")));
}
