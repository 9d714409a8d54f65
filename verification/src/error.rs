//! The crate's error type and the retry classification of its variants.

use reqwest::Error as ReqwestError;
use vstd::prelude::*;

use crate::calendar::{dec_digits, decimal_string};
use crate::text::{append_str, debug_quoted, debug_str, owned};

verus! {

/// Declares the URL parser's error type, a field-less enum of failure
/// kinds, so verified code can carry it and tell its kinds apart.
#[verifier::external_type_specification]
pub struct ExUrlParseError(url::ParseError);

/// Declares the HTTP client's error type so verified code can inspect it.
#[verifier::external_type_specification]
#[verifier::external_body]
pub struct ExReqwestError(ReqwestError);

/// Everything that can go wrong in a command.
#[derive(Debug)]
pub enum Error {
    /// No usable bearer token (absent, blank, or not a valid header value).
    MissingToken,
    /// The HTTP request itself failed; the flags record what kind of failure it was.
    Http { timeout: bool, connect: bool, request: bool, message: String },
    /// Stockbit answered with a non-success status.
    Api { status: u16, body: String },
    /// A URL did not parse.
    Url(url::ParseError),
    /// A date argument is not a real `YYYY-MM-DD` date.
    InvalidDate { input: String },
    /// A file-system operation failed.
    Io(String),
    /// JSON could not be read or written.
    Json(String),
    /// YAML could not be read or written.
    Yaml(String),
    /// The stored configuration was misused (unknown key, no home directory).
    Config(String),
    /// Yahoo answered with a non-success status or reported an error payload.
    Yahoo { status: u16, body: String },
    /// The Yahoo cookie + crumb handshake failed.
    Crumb,
    /// IDX answered with a non-success status that is not a bot challenge.
    Idx { status: u16, body: String },
    /// Cloudflare blocked the IDX request with a challenge page.
    IdxChallenge,
    /// The IDX cookie or user agent is not a valid header value.
    MissingIdxCookie,
}

/// The text a user reads for `e`.
pub open spec fn error_text(e: Error) -> Seq<char> {
    match e {
        Error::MissingToken => "missing bearer token: set STOCKBIT_BEARER_TOKEN or pass --token"@,
        Error::Http { message, .. } => "HTTP request failed: "@ + message@,
        Error::Api { status, body } => "Stockbit API returned status "@ + dec_digits(status as nat)
            + ": "@ + body@,
        Error::Url(p) => "invalid URL: "@ + url_error_text(p),
        Error::InvalidDate { input } => "invalid date "@ + debug_str(input@)
            + ": expected YYYY-MM-DD"@,
        Error::Io(m) => "I/O error: "@ + m@,
        Error::Json(m) => "JSON error: "@ + m@,
        Error::Yaml(m) => "YAML error: "@ + m@,
        Error::Config(m) => "config error: "@ + m@,
        Error::Yahoo { status, body } => "Yahoo Finance returned status "@ + dec_digits(
            status as nat,
        ) + ": "@ + body@,
        Error::Crumb => "Yahoo crumb handshake failed (empty or error crumb)"@,
        Error::Idx { status, body } => "IDX returned status "@ + dec_digits(status as nat) + ": "@
            + body@,
        Error::IdxChallenge => "IDX request blocked by a Cloudflare challenge: refresh the cf_clearance cookie (same IP and user agent as the browser)"@,
        Error::MissingIdxCookie => "invalid IDX cookie or user agent: not a valid header value"@,
    }
}

/// The `Display` text of a URL parse error: the fixed phrase of its kind.
pub open spec fn url_error_text(e: url::ParseError) -> Seq<char> {
    match e {
        url::ParseError::EmptyHost => "empty host"@,
        url::ParseError::IdnaError => "invalid international domain name"@,
        url::ParseError::InvalidPort => "invalid port number"@,
        url::ParseError::InvalidIpv4Address => "invalid IPv4 address"@,
        url::ParseError::InvalidIpv6Address => "invalid IPv6 address"@,
        url::ParseError::InvalidDomainCharacter => "invalid domain character"@,
        url::ParseError::RelativeUrlWithoutBase => "relative URL without a base"@,
        url::ParseError::RelativeUrlWithCannotBeABaseBase => "relative URL with a cannot-be-a-base base"@,
        url::ParseError::SetHostOnCannotBeABaseUrl => "a cannot-be-a-base URL doesn’t have a host to set"@,
        url::ParseError::Overflow => "URLs more than 4 GB are not supported"@,
        // The enum is marked non-exhaustive; no kind of this version reaches here.
        _ => Seq::empty(),
    }
}

/// `url::ParseError`'s `Display` text, by `to_string`: the phrase of its kind.
#[verifier::external_body]
fn url_error_message(e: &url::ParseError) -> (res: String)
    ensures
        res@ == url_error_text(*e),
{
    e.to_string()
}

/// `prefix` followed by `rest`.
fn prefixed(prefix: &str, rest: &str) -> (res: String)
    ensures
        res@ == prefix@ + rest@,
{
    let mut s = owned(prefix);
    append_str(&mut s, rest);
    s
}

/// `prefix`, the decimal `status`, `": "` and `body`.
fn status_text(prefix: &str, status: u16, body: &str) -> (res: String)
    ensures
        res@ == prefix@ + dec_digits(status as nat) + ": "@ + body@,
{
    let mut s = owned(prefix);
    let n = decimal_string(status as u64);
    append_str(&mut s, n.as_str());
    append_str(&mut s, ": ");
    append_str(&mut s, body);
    s
}

/// Whether `status` is 429 (rate limited) or a 5xx server error.
pub open spec fn is_retryable_status(status: u16) -> bool {
    status == 429 || (500 <= status < 600)
}

/// Transient failures worth retrying: 5xx and 429 answers, and timeouts,
/// connection failures and request-building failures of the HTTP client.
pub open spec fn is_transient_error(e: &Error) -> bool {
    match e {
        Error::Api { status, .. } => is_retryable_status(*status),
        Error::Http { timeout, connect, request, .. } => *timeout || *connect || *request,
        _ => false,
    }
}

/// Client errors other than 429 are never retried; 429 and every 5xx are.
pub proof fn lemma_retry_statuses(status: u16, body: String)
    ensures
        400 <= status < 500 && status != 429 ==> !is_transient_error(&Error::Api { status, body }),
        (status == 429 || 500 <= status < 600) ==> is_transient_error(&Error::Api { status, body }),
{
}

/// Network failures are transient: an HTTP-client error that timed out,
/// failed to connect, or failed while sending is retried, whatever its
/// message; one with none of these flags is not.
pub proof fn lemma_network_failures_transient(timeout: bool, connect: bool, request: bool, message: String)
    ensures
        timeout ==> is_transient_error(&Error::Http { timeout, connect, request, message }),
        connect ==> is_transient_error(&Error::Http { timeout, connect, request, message }),
        request ==> is_transient_error(&Error::Http { timeout, connect, request, message }),
        !timeout && !connect && !request ==> !is_transient_error(
            &Error::Http { timeout, connect, request, message },
        ),
{
}

/// Only answers with a retryable status and network failures are
/// transient; every other error is final.
pub proof fn lemma_other_errors_final(e: Error)
    requires
        !(e is Http || e is Api),
    ensures
        !is_transient_error(&e),
{
}

impl Error {
    /// True for transient failures worth retrying (5xx, 429, network-level errors).
    pub fn is_transient(&self) -> (res: bool)
        ensures
            res == is_transient_error(self),
            *self matches Error::Http { timeout, connect, request, .. } ==> (res == (timeout
                || connect || request)),
            *self matches Error::Api { status, .. } ==> (res == (status == 429 || 500 <= status
                < 600)),
            !(*self is Http || *self is Api) ==> !res,
    {
        match self {
            Error::Api { status, .. } => *status == 429 || (500 <= *status && *status < 600),
            Error::Http { timeout, connect, request, .. } => *timeout || *connect || *request,
            _ => false,
        }
    }

    /// The text a user reads for this error.
    pub fn text(&self) -> (res: String)
        ensures
            res@ == error_text(*self),
    {
        match self {
            Error::MissingToken => owned("missing bearer token: set STOCKBIT_BEARER_TOKEN or pass --token"),
            Error::Http { message, .. } => prefixed("HTTP request failed: ", message.as_str()),
            Error::Api { status, body } => status_text("Stockbit API returned status ", *status, body.as_str()),
            Error::Url(p) => {
                let m = url_error_message(p);
                prefixed("invalid URL: ", m.as_str())
            },
            Error::InvalidDate { input } => {
                let q = debug_quoted(input.as_str());
                let mut s = prefixed("invalid date ", q.as_str());
                append_str(&mut s, ": expected YYYY-MM-DD");
                s
            },
            Error::Io(m) => prefixed("I/O error: ", m.as_str()),
            Error::Json(m) => prefixed("JSON error: ", m.as_str()),
            Error::Yaml(m) => prefixed("YAML error: ", m.as_str()),
            Error::Config(m) => prefixed("config error: ", m.as_str()),
            Error::Yahoo { status, body } => status_text("Yahoo Finance returned status ", *status, body.as_str()),
            Error::Crumb => owned("Yahoo crumb handshake failed (empty or error crumb)"),
            Error::Idx { status, body } => status_text("IDX returned status ", *status, body.as_str()),
            Error::IdxChallenge => owned("IDX request blocked by a Cloudflare challenge: refresh the cf_clearance cookie (same IP and user agent as the browser)"),
            Error::MissingIdxCookie => owned("invalid IDX cookie or user agent: not a valid header value"),
        }
    }

    /// Classifies an HTTP client error: its timeout, connect and request flags
    /// and its `Display` text, as the client reports them.
    pub fn from_reqwest(e: ReqwestError) -> (res: Error)
        ensures
            reports(res, e),
    {
        let timeout = reqwest_is_timeout(&e);
        let connect = reqwest_is_connect(&e);
        let request = reqwest_is_request(&e);
        let message = reqwest_message(&e);
        Error::Http { timeout, connect, request, message }
    }
}

/// Whether `err` is the [`Error::Http`] that describes `e`: its flags are
/// what `e` answers to `is_timeout`, `is_connect` and `is_request`, and its
/// message is `e`'s `Display` text.
pub open spec fn reports(err: Error, e: ReqwestError) -> bool {
    err matches Error::Http { timeout, connect, request, message } && timeout == reqwest_timeout(e)
        && connect == reqwest_connect(e) && request == reqwest_request(e) && message@
        == reqwest_display(e)
}

/// What `reqwest::Error::is_timeout` answers for an error: whether its chain
/// of causes holds a timeout.
pub uninterp spec fn reqwest_timeout(e: ReqwestError) -> bool;

/// What `reqwest::Error::is_connect` answers for an error: whether its chain
/// of causes holds a connection failure.
pub uninterp spec fn reqwest_connect(e: ReqwestError) -> bool;

/// What `reqwest::Error::is_request` answers for an error: whether its kind
/// is a failure to send the request.
pub uninterp spec fn reqwest_request(e: ReqwestError) -> bool;

/// `reqwest::Error::is_timeout`, which walks the error's chain of causes;
/// its answer depends on the error value alone and is named `reqwest_timeout`.
#[verifier::external_body]
fn reqwest_is_timeout(e: &ReqwestError) -> (res: bool)
    ensures
        res == reqwest_timeout(*e),
{
    e.is_timeout()
}

/// `reqwest::Error::is_connect`, which walks the error's chain of causes;
/// its answer depends on the error value alone and is named `reqwest_connect`.
#[verifier::external_body]
fn reqwest_is_connect(e: &ReqwestError) -> (res: bool)
    ensures
        res == reqwest_connect(*e),
{
    e.is_connect()
}

/// `reqwest::Error::is_request`, a test of the error's kind; its answer
/// depends on the error value alone and is named `reqwest_request`.
#[verifier::external_body]
fn reqwest_is_request(e: &ReqwestError) -> (res: bool)
    ensures
        res == reqwest_request(*e),
{
    e.is_request()
}

/// The `Display` text of a `reqwest::Error`: a phrase for its kind, then
/// ` for url (..)` when it carries a URL. It depends on the error value alone.
pub uninterp spec fn reqwest_display(e: ReqwestError) -> Seq<char>;

/// `reqwest::Error`'s `Display` text, by `to_string`; named `reqwest_display`.
#[verifier::external_body]
fn reqwest_message(e: &ReqwestError) -> (res: String)
    ensures
        res@ == reqwest_display(*e),
{
    e.to_string()
}

} // verus!
