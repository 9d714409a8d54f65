//! Error-body truncation and trailing-slash base URLs.

use stockbit_cli::util::{truncate, with_trailing_slash};

#[test]
fn returns_unchanged_when_under_limit() {
    assert_eq!(truncate("hi", 10), "hi");
}

#[test]
fn uses_ellipsis_when_over_limit() {
    let out = truncate("0123456789abcd", 5);
    assert!(out.ends_with('…'));
    assert!(out.starts_with("01234"));
}

#[test]
fn handles_multibyte_boundary_safely() {
    let s = "héllo wörld";
    let _ = truncate(s, 4);
    let _ = truncate(s, 6);
}

#[test]
fn truncate_returns_unchanged_when_under_limit() {
    assert_eq!(truncate("hi", 10), "hi");
}

#[test]
fn truncate_uses_ellipsis_when_over_limit() {
    let out = truncate("0123456789abcd", 5);
    assert!(out.ends_with('…'));
    assert!(out.starts_with("01234"));
}

#[test]
fn truncate_handles_multibyte_boundary_safely() {
    let s = "héllo wörld";
    let _ = truncate(s, 4);
    let _ = truncate(s, 6);
}

#[test]
fn truncate_exact_values() {
    assert_eq!(truncate("0123456789abcd", 5), "01234…");
    assert_eq!(truncate("héllo wörld", 4), "héll…");
    // 6 bytes but 5 characters: within the limit, kept whole.
    assert_eq!(truncate("héllo", 5), "héllo");
    assert_eq!(truncate("héllo", 4), "héll…");
    assert_eq!(truncate("", 0), "");
}

#[test]
fn trailing_slash_is_added_once() {
    assert_eq!(with_trailing_slash("https://x/api").unwrap(), "https://x/api/");
    assert_eq!(with_trailing_slash("https://x/api/").unwrap(), "https://x/api/");
    assert!(with_trailing_slash("not a url").is_err());
}

#[test]
fn trailing_slash_url_is_normalized_by_the_parser() {
    assert_eq!(with_trailing_slash("HTTP://Example.COM").unwrap(), "http://example.com/");
    assert_eq!(with_trailing_slash("https://x:443/a b").unwrap(), "https://x/a%20b/");
}
