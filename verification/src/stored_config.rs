//! The on-disk settings file (`~/.stockbit-cli/config.yaml`) as data: which
//! keys exist, how `set` and `unset` change them, and the view `config show`
//! prints, which never reveals the token. Reading and writing the file is the
//! caller's part.

use vstd::prelude::*;

use crate::error::Error;
use crate::text::{
    ascii_lower, chars_eq_str, concat3, debug_quoted, debug_str, lower_chars, owned,
    string_from_chars,
};

verus! {

/// Name of the settings directory under `$HOME`.
pub const CONFIG_DIR_NAME: &'static str = ".stockbit-cli";

/// Name of the settings file inside [`CONFIG_DIR_NAME`].
pub const CONFIG_FILE_NAME: &'static str = "config.yaml";

/// Stored settings; every field is optional.
#[derive(Debug, Clone, PartialEq, Eq)]
pub struct StoredConfig {
    pub token: Option<String>,
    pub base_url: Option<String>,
}

/// The keys `set` and `unset` understand.
#[derive(Debug, Clone, Copy, PartialEq, Eq)]
pub enum ConfigKey {
    Token,
    BaseUrl,
}

/// The key that `key` names, compared case-insensitively: `token`, or
/// `base_url` / `base-url` / `baseurl`.
pub open spec fn config_key(key: Seq<char>) -> Option<ConfigKey> {
    let l = ascii_lower(key);
    if l == "token"@ {
        Some(ConfigKey::Token)
    } else if l == "base_url"@ || l == "base-url"@ || l == "baseurl"@ {
        Some(ConfigKey::BaseUrl)
    } else {
        None
    }
}

/// The message for an unknown key `lowered` (already lower-cased).
pub open spec fn unknown_key_message(lowered: Seq<char>) -> Seq<char> {
    "unknown config key "@ + debug_str(lowered) + "; expected one of: token, base-url"@
}

/// The stored value of key `k`.
pub open spec fn value_of(c: StoredConfig, k: ConfigKey) -> Option<String> {
    match k {
        ConfigKey::Token => c.token,
        ConfigKey::BaseUrl => c.base_url,
    }
}

/// `c` with key `k` holding `v` and the other key unchanged.
pub open spec fn with_value(c: StoredConfig, k: ConfigKey, v: Option<String>) -> StoredConfig {
    match k {
        ConfigKey::Token => StoredConfig { token: v, base_url: c.base_url },
        ConfigKey::BaseUrl => StoredConfig { token: c.token, base_url: v },
    }
}

/// Reading a key gives what was last written to it, and writing one key
/// leaves the other alone. Hence `set(k, v)` then `unset(k)` returns `v`,
/// and `unset(k)` then `unset(k)` returns `None`.
pub proof fn lemma_value_of_with_value(c: StoredConfig, k: ConfigKey, j: ConfigKey, v: Option<String>)
    ensures
        value_of(with_value(c, k, v), k) == v,
        j != k ==> value_of(with_value(c, k, v), j) == value_of(c, j),
        with_value(with_value(c, k, v), k, None) == with_value(c, k, None),
{
}

/// What `config show` prints: whether a token is stored, never its value.
#[derive(Debug, Clone, PartialEq, Eq)]
pub struct RedactedConfig {
    pub token: String,
    pub base_url: Option<String>,
}

/// Classifies `key` case-insensitively.
pub fn classify_key(key: &str) -> (res: Result<ConfigKey, Error>)
    ensures
        match config_key(key@) {
            Some(k) => res == Ok::<ConfigKey, Error>(k),
            None => res matches Err(Error::Config(msg)) && msg@ == unknown_key_message(
                ascii_lower(key@),
            ),
        },
{
    let l = lower_chars(key);
    if chars_eq_str(&l, "token") {
        Ok(ConfigKey::Token)
    } else if chars_eq_str(&l, "base_url") || chars_eq_str(&l, "base-url") || chars_eq_str(
        &l,
        "baseurl",
    ) {
        Ok(ConfigKey::BaseUrl)
    } else {
        let lowered = string_from_chars(&l);
        let quoted = debug_quoted(lowered.as_str());
        Err(Error::Config(concat3("unknown config key ", quoted.as_str(), "; expected one of: token, base-url")))
    }
}

impl StoredConfig {
    /// Nothing stored.
    pub fn new() -> (res: StoredConfig)
        ensures
            res.token is None,
            res.base_url is None,
    {
        StoredConfig { token: None, base_url: None }
    }

    /// Update one of the known string keys (case-insensitive). Returns the
    /// previous value, if any. An unknown key changes nothing.
    pub fn set(&mut self, key: &str, value: String) -> (res: Result<Option<String>, Error>)
        ensures
            match config_key(key@) {
                Some(k) => {
                    &&& res == Ok::<Option<String>, Error>(value_of(*old(self), k))
                    &&& *final(self) == with_value(*old(self), k, Some(value))
                },
                None => {
                    &&& *final(self) == *old(self)
                    &&& res matches Err(Error::Config(msg)) && msg@ == unknown_key_message(
                        ascii_lower(key@),
                    )
                },
            },
    {
        match classify_key(key) {
            Ok(ConfigKey::Token) => {
                let prev = self.token.take();
                self.token = Some(value);
                Ok(prev)
            },
            Ok(ConfigKey::BaseUrl) => {
                let prev = self.base_url.take();
                self.base_url = Some(value);
                Ok(prev)
            },
            Err(e) => Err(e),
        }
    }

    /// Remove one of the known keys (case-insensitive). Returns the removed
    /// value, if any. An unknown key changes nothing.
    pub fn unset(&mut self, key: &str) -> (res: Result<Option<String>, Error>)
        ensures
            match config_key(key@) {
                Some(k) => {
                    &&& res == Ok::<Option<String>, Error>(value_of(*old(self), k))
                    &&& *final(self) == with_value(*old(self), k, None)
                },
                None => {
                    &&& *final(self) == *old(self)
                    &&& res matches Err(Error::Config(msg)) && msg@ == unknown_key_message(
                        ascii_lower(key@),
                    )
                },
            },
    {
        match classify_key(key) {
            Ok(ConfigKey::Token) => Ok(self.token.take()),
            Ok(ConfigKey::BaseUrl) => Ok(self.base_url.take()),
            Err(e) => Err(e),
        }
    }

    /// View that never reveals the token: `"<set>"` or `"<unset>"` in its
    /// place, and the base URL as stored.
    pub fn redacted(&self) -> (res: RedactedConfig)
        ensures
            res.token@ == (if self.token is Some { "<set>"@ } else { "<unset>"@ }),
            res.base_url == self.base_url,
    {
        let token = match &self.token {
            Some(_) => owned("<set>"),
            None => owned("<unset>"),
        };
        RedactedConfig { token, base_url: self.base_url.clone() }
    }
}

impl Default for StoredConfig {
    fn default() -> (res: StoredConfig)
        ensures
            res.token is None,
            res.base_url is None,
    {
        StoredConfig::new()
    }
}

} // verus!
