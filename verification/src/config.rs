//! Runtime configuration for the Stockbit client and the precedence that
//! resolves it: CLI flag, then environment variable, then the stored file,
//! then defaults.

use vstd::prelude::*;

use crate::calendar::{dec_digits, decimal_string};
use crate::error::Error;
use crate::stored_config::StoredConfig;
use crate::text::{append_str, debug_quoted, debug_str, is_blank, is_blank_str, owned};

verus! {

/// The Stockbit API host used when no override is given.
pub const DEFAULT_BASE_URL: &'static str = "https://exodus.stockbit.com";

/// Environment variable holding the bearer token.
pub const TOKEN_ENV: &'static str = "STOCKBIT_BEARER_TOKEN";

/// User agent sent to Stockbit.
pub const USER_AGENT: &'static str = "stockbit-cli/0.1.0";

/// Resolved runtime configuration for the Stockbit client.
pub struct Config {
    pub base_url: String,
    pub token: String,
    pub user_agent: String,
    /// Whole-request timeout, in seconds.
    pub request_timeout_secs: u64,
    pub max_retries: u32,
}

/// Whether a token candidate is usable: present and not blank.
pub open spec fn usable_token(t: Option<String>) -> bool {
    t matches Some(v) && !is_blank(v@)
}

/// The token that wins: the first usable one of the CLI flag, the
/// environment and the stored file; a blank source counts as absent.
pub open spec fn chosen_token(
    cli_token: Option<String>,
    env_token: Option<String>,
    stored: StoredConfig,
) -> Option<String> {
    if usable_token(cli_token) {
        cli_token
    } else if usable_token(env_token) {
        env_token
    } else if usable_token(stored.token) {
        stored.token
    } else {
        None
    }
}

/// The base URL that wins: the CLI flag, else the stored file (the default
/// applies when both are absent).
pub open spec fn chosen_base_url(base_url: Option<String>, stored: StoredConfig) -> Option<String> {
    if base_url is Some {
        base_url
    } else {
        stored.base_url
    }
}

/// The `Debug` text of a config, with the token replaced by `<redacted>`.
pub open spec fn config_debug_text(base_url: Seq<char>, user_agent: Seq<char>, timeout_secs: nat, max_retries: nat) -> Seq<char> {
    "Config { base_url: "@ + debug_str(base_url) + ", token: \"<redacted>\", user_agent: "@
        + debug_str(user_agent) + ", request_timeout: "@ + dec_digits(timeout_secs) + "s, max_retries: "@
        + dec_digits(max_retries) + " }"@
}

/// `t` when it is usable; `None` when it is absent or blank.
fn usable(t: Option<String>) -> (res: Option<String>)
    ensures
        res == (if usable_token(t) { t } else { None }),
{
    match t {
        Some(v) => {
            if is_blank_str(v.as_str()) {
                None
            } else {
                Some(v)
            }
        },
        None => None,
    }
}

impl Config {
    /// Resolve the runtime config from its sources, highest precedence first:
    /// the CLI flags (`cli_token`, `base_url`), the environment's token, and
    /// the stored file; then defaults. The token is the first one that is
    /// present and not blank; [`Error::MissingToken`] when there is none.
    pub fn resolve_from(
        cli_token: Option<String>,
        env_token: Option<String>,
        stored: StoredConfig,
        base_url: Option<String>,
    ) -> (res: Result<Config, Error>)
        ensures
            match chosen_token(cli_token, env_token, stored) {
                None => res matches Err(Error::MissingToken),
                Some(t) => res matches Ok(c) && {
                    &&& c.token == t
                    &&& c.base_url@ == match chosen_base_url(base_url, stored) {
                        Some(b) => b@,
                        None => DEFAULT_BASE_URL@,
                    }
                    &&& c.user_agent@ == USER_AGENT@
                    &&& c.request_timeout_secs == 30
                    &&& c.max_retries == 3
                },
            },
            usable_token(cli_token) ==> (res matches Ok(c) && Some(c.token) == cli_token),
            !usable_token(cli_token) && usable_token(env_token) ==> (res matches Ok(c) && Some(
                c.token,
            ) == env_token),
            !usable_token(cli_token) && !usable_token(env_token) && usable_token(stored.token)
                ==> (res matches Ok(c) && Some(c.token) == stored.token),
            res matches Err(Error::MissingToken) <==> !usable_token(cli_token) && !usable_token(
                env_token,
            ) && !usable_token(stored.token),
            res matches Ok(c) ==> !is_blank(c.token@),
    {
        let stored_base = stored.base_url;
        let token = match usable(cli_token) {
            Some(t) => t,
            None => match usable(env_token) {
                Some(t) => t,
                None => match usable(stored.token) {
                    Some(t) => t,
                    None => return Err(Error::MissingToken),
                },
            },
        };
        let base_url = match base_url {
            Some(b) => b,
            None => match stored_base {
                Some(b) => b,
                None => owned(DEFAULT_BASE_URL),
            },
        };
        Ok(Config {
            base_url,
            token,
            user_agent: owned(USER_AGENT),
            request_timeout_secs: 30,
            max_retries: 3,
        })
    }

    /// Construct a config for tests bypassing environment lookup.
    pub fn for_test(base_url: &str, token: &str) -> (res: Config)
        ensures
            res.base_url@ == base_url@,
            res.token@ == token@,
            res.user_agent@ == USER_AGENT@,
            res.request_timeout_secs == 5,
            res.max_retries == 2,
    {
        Config {
            base_url: owned(base_url),
            token: owned(token),
            user_agent: owned(USER_AGENT),
            request_timeout_secs: 5,
            max_retries: 2,
        }
    }

    /// Debug rendering that never shows the bearer token.
    pub fn debug_text(&self) -> (res: String)
        ensures
            res@ == config_debug_text(
                self.base_url@,
                self.user_agent@,
                self.request_timeout_secs as nat,
                self.max_retries as nat,
            ),
    {
        let mut s = owned("Config { base_url: ");
        let b = debug_quoted(self.base_url.as_str());
        append_str(&mut s, b.as_str());
        append_str(&mut s, ", token: \"<redacted>\", user_agent: ");
        let u = debug_quoted(self.user_agent.as_str());
        append_str(&mut s, u.as_str());
        append_str(&mut s, ", request_timeout: ");
        let t = decimal_string(self.request_timeout_secs);
        append_str(&mut s, t.as_str());
        append_str(&mut s, "s, max_retries: ");
        let m = decimal_string(self.max_retries as u64);
        append_str(&mut s, m.as_str());
        append_str(&mut s, " }");
        s
    }
}

/// Token precedence: a usable CLI token wins over everything; without one,
/// a usable environment token wins whatever the stored file holds; the
/// stored token is used only when neither of the others is usable; and a
/// token that is chosen is never blank.
pub proof fn lemma_token_precedence(
    cli_token: Option<String>,
    env_token: Option<String>,
    stored: StoredConfig,
    other: StoredConfig,
)
    ensures
        usable_token(cli_token) ==> chosen_token(cli_token, env_token, stored) == cli_token,
        !usable_token(cli_token) && usable_token(env_token) ==> chosen_token(cli_token, env_token, stored)
            == env_token && chosen_token(cli_token, env_token, other) == env_token,
        !usable_token(cli_token) && !usable_token(env_token) ==> chosen_token(cli_token, env_token, stored)
            == (if usable_token(stored.token) { stored.token } else { None }),
        chosen_token(cli_token, env_token, stored) matches Some(t) ==> !is_blank(t@),
{
}

/// The debug text of two configs that differ only in their token is the same:
/// the token never reaches it.
pub proof fn lemma_debug_text_hides_token(a: Config, b: Config)
    requires
        a.base_url@ == b.base_url@,
        a.user_agent@ == b.user_agent@,
        a.request_timeout_secs == b.request_timeout_secs,
        a.max_retries == b.max_retries,
    ensures
        config_debug_text(a.base_url@, a.user_agent@, a.request_timeout_secs as nat, a.max_retries as nat)
            == config_debug_text(b.base_url@, b.user_agent@, b.request_timeout_secs as nat, b.max_retries as nat),
{
}

} // verus!
