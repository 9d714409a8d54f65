//! Runtime config precedence and token redaction.

use stockbit_cli::config::{Config, DEFAULT_BASE_URL};
use stockbit_cli::error::Error;
use stockbit_cli::stored_config::StoredConfig;

#[test]
fn cli_token_beats_env() {
    let cfg = Config::resolve_from(
        Some("from-cli".to_string()),
        Some("from-env".to_string()),
        StoredConfig::default(),
        None,
    )
    .unwrap();
    assert_eq!(cfg.token, "from-cli");
}

#[test]
fn env_token_used_when_cli_unset() {
    let cfg = Config::resolve_from(None, Some("from-env".to_string()), StoredConfig::default(), None)
        .unwrap();
    assert_eq!(cfg.token, "from-env");
}

#[test]
fn whitespace_only_token_treated_as_missing() {
    let err = Config::resolve_from(None, Some("   ".to_string()), StoredConfig::default(), None)
        .err()
        .expect("blank token rejected");
    assert!(matches!(err, Error::MissingToken));
}

#[test]
fn default_base_url_used_when_unset() {
    let cfg = Config::resolve_from(None, Some("t".to_string()), StoredConfig::default(), None)
        .unwrap();
    assert_eq!(cfg.base_url, DEFAULT_BASE_URL);
    assert_eq!(cfg.request_timeout_secs, 30);
    assert_eq!(cfg.max_retries, 3);
}

#[test]
fn stored_values_fill_in_last() {
    let stored = StoredConfig {
        token: Some("from-file".to_string()),
        base_url: Some("https://mirror.invalid".to_string()),
    };
    let cfg = Config::resolve_from(None, None, stored.clone(), None).unwrap();
    assert_eq!(cfg.token, "from-file");
    assert_eq!(cfg.base_url, "https://mirror.invalid");
    let cfg = Config::resolve_from(None, None, stored, Some("https://flag.invalid".to_string()))
        .unwrap();
    assert_eq!(cfg.base_url, "https://flag.invalid");
    assert!(matches!(
        Config::resolve_from(None, None, StoredConfig::default(), None),
        Err(Error::MissingToken)
    ));
}

#[test]
fn debug_format_never_leaks_token() {
    let cfg = Config::for_test("https://example.invalid", "sensitive-bearer-value");
    let dbg = cfg.debug_text();
    assert!(!dbg.contains("sensitive-bearer-value"), "token leaked in Debug: {dbg}");
    assert!(dbg.contains("<redacted>"));
    assert_eq!(
        dbg,
        "Config { base_url: \"https://example.invalid\", token: \"<redacted>\", user_agent: \"stockbit-cli/0.1.0\", request_timeout: 5s, max_retries: 2 }"
    );
}

#[test]
fn blank_sources_fall_through_to_the_next() {
    let cfg = Config::resolve_from(Some(String::new()), Some("tok".to_string()), StoredConfig::default(), None)
        .unwrap();
    assert_eq!(cfg.token, "tok");
    let stored = StoredConfig { token: Some("from-file".to_string()), base_url: None };
    let cfg = Config::resolve_from(Some("  ".to_string()), Some("\t".to_string()), stored, None).unwrap();
    assert_eq!(cfg.token, "from-file");
    let blank_file = StoredConfig { token: Some(" ".to_string()), base_url: None };
    assert!(matches!(
        Config::resolve_from(Some("".to_string()), None, blank_file, None),
        Err(Error::MissingToken)
    ));
}
