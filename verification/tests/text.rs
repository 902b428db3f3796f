use tauri_axum_htmx::text::{bytes_contain, decimal_string, str_contains, str_eq};

#[test]
fn str_eq_compares_whole_texts() {
    assert!(str_eq("", ""));
    assert!(str_eq("GET", "GET"));
    assert!(!str_eq("GET", "get"));
    assert!(!str_eq("GET", "GETS"));
    assert!(!str_eq("GETS", "GET"));
    assert!(!str_eq("", "a"));
    assert!(str_eq("日本語", "日本語"));
    assert!(!str_eq("日本語", "日本誤"));
}

#[test]
fn bytes_contain_finds_runs() {
    assert!(bytes_contain(b"hello world", b"o w"));
    assert!(bytes_contain(b"hello world", b"hello"));
    assert!(bytes_contain(b"hello world", b"world"));
    assert!(bytes_contain(b"hello world", b"hello world"));
    assert!(!bytes_contain(b"hello world", b"worlds"));
    assert!(!bytes_contain(b"hello world", b"hello world!"));
    assert!(!bytes_contain(b"aab", b"ba"));
    assert!(bytes_contain(b"aaab", b"aab"));
}

#[test]
fn the_empty_run_is_everywhere() {
    assert!(bytes_contain(b"", b""));
    assert!(bytes_contain(b"abc", b""));
    assert!(!bytes_contain(b"", b"a"));
    assert!(str_contains("", ""));
    assert!(str_contains("abc", ""));
    assert!(!str_contains("", "abc"));
}

#[test]
fn str_contains_is_case_sensitive() {
    assert!(str_contains("text/event-stream", "text/event-stream"));
    assert!(str_contains(
        "text/event-stream; charset=utf-8",
        "text/event-stream"
    ));
    assert!(!str_contains("Text/Event-Stream", "text/event-stream"));
    assert!(!str_contains("text/event-strea", "text/event-stream"));
    assert!(str_contains("größe", "öß"));
}

#[test]
fn decimal_string_writes_digits() {
    assert_eq!(decimal_string(0), "0");
    assert_eq!(decimal_string(7), "7");
    assert_eq!(decimal_string(10), "10");
    assert_eq!(decimal_string(109), "109");
    assert_eq!(decimal_string(5000), "5000");
    assert_eq!(decimal_string(u64::MAX), u64::MAX.to_string());
}
