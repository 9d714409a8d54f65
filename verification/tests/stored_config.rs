//! Stored settings: key handling and the redacted view.

use stockbit_cli::error::Error;
use stockbit_cli::stored_config::StoredConfig;

#[test]
fn stored_config_set_then_unset_token() {
    let mut cfg = StoredConfig::default();
    assert!(cfg.set("token", "abc".into()).unwrap().is_none());
    assert_eq!(cfg.token.as_deref(), Some("abc"));
    let prev = cfg.set("TOKEN", "def".into()).unwrap();
    assert_eq!(prev.as_deref(), Some("abc"));
    let removed = cfg.unset("token").unwrap();
    assert_eq!(removed.as_deref(), Some("def"));
    assert!(cfg.token.is_none());
}

#[test]
fn stored_config_set_supports_base_url_variants() {
    let mut cfg = StoredConfig::default();
    cfg.set("base-url", "https://a".into()).unwrap();
    assert_eq!(cfg.base_url.as_deref(), Some("https://a"));
    cfg.set("base_url", "https://b".into()).unwrap();
    assert_eq!(cfg.base_url.as_deref(), Some("https://b"));
    cfg.set("BaseURL", "https://c".into()).unwrap();
    assert_eq!(cfg.base_url.as_deref(), Some("https://c"));
}

#[test]
fn stored_config_set_rejects_unknown_key() {
    let mut cfg = StoredConfig::default();
    let err = cfg.set("nope", "v".into()).unwrap_err();
    assert!(matches!(err, Error::Config(_)));
    assert_eq!(cfg, StoredConfig::default());
    match cfg.unset("NoPe").unwrap_err() {
        Error::Config(msg) => {
            assert_eq!(msg, "unknown config key \"nope\"; expected one of: token, base-url")
        }
        other => panic!("unexpected {other:?}"),
    }
}

#[test]
fn stored_config_redacted_hides_token_value_but_shows_presence() {
    let cfg = StoredConfig {
        token: Some("super-secret".into()),
        base_url: Some("https://x".into()),
    };
    let v = cfg.redacted();
    assert_eq!(v.token, "<set>");
    assert_eq!(v.base_url.as_deref(), Some("https://x"));
    let empty = StoredConfig::default();
    assert_eq!(empty.redacted().token, "<unset>");
}
