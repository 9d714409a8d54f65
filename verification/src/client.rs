//! The Stockbit client: its default headers, its base URL, and the URLs of
//! relative request paths. Sending a request and decoding its JSON is the
//! caller's part; [`Client::backoff`] gives the retry policy to send it with.

use reqwest::Client as ReqwestClient;
use reqwest::Error as ReqwestError;
use vstd::prelude::*;

use crate::api::{query_view, ApiRequest};
use crate::config::Config;
use crate::error::Error;
use crate::error::reports;
use crate::http::{
    build_http_client, client_setup, header, header_map, header_map_of, header_value_ok,
    installed_headers, is_header_value, join_url, lemma_installed_header_map, sent_url, url_for,
    url_join, Header,
    HeaderName,
};
use crate::retry::{Backoff, MAX_DURATION_NANOS};
use crate::text::{chars_of, concat2, owned, string_from_chars};
use crate::util::{slash_terminated, truncate, truncated, with_trailing_slash};
use crate::http::url_parse;

verus! {

/// Backoff base of a fresh client: two seconds.
pub const DEFAULT_RETRY_BASE_NANOS: u128 = 2_000_000_000;

/// The `Authorization` value for `token`.
pub open spec fn bearer(token: Seq<char>) -> Seq<char> {
    "Bearer "@ + token
}

/// `s` without its leading `/` characters.
pub open spec fn strip_leading_slashes(s: Seq<char>) -> Seq<char>
    decreases s.len(),
{
    if s.len() > 0 && s[0] == '/' {
        strip_leading_slashes(s.drop_first())
    } else {
        s
    }
}

/// HTTP client for the Stockbit API.
pub struct Client {
    pub http: ReqwestClient,
    /// The base URL, parsed, with a trailing slash.
    pub base: String,
    pub max_retries: u32,
    pub retry_base_nanos: u128,
}

/// The default headers for `cfg`: the bearer token (sensitive), JSON accept,
/// and the configured user agent, or `stockbit-cli` when that is not a valid
/// header value. A token that is not a valid header value counts as missing.
pub fn request_headers(cfg: &Config) -> (res: Result<Vec<Header>, Error>)
    ensures
        !is_header_value(bearer(cfg.token@)) ==> res matches Err(Error::MissingToken),
        is_header_value(bearer(cfg.token@)) ==> (res matches Ok(hs) && {
            &&& hs.len() == 3
            &&& hs[0].name == HeaderName::Authorization && hs[0].value@ == bearer(cfg.token@)
                && hs[0].sensitive
            &&& hs[1].name == HeaderName::Accept && hs[1].value@ == "application/json"@
                && !hs[1].sensitive
            &&& hs[2].name == HeaderName::UserAgent && hs[2].value@ == (if is_header_value(
                cfg.user_agent@,
            ) {
                cfg.user_agent@
            } else {
                "stockbit-cli"@
            }) && !hs[2].sensitive
            &&& forall|i: int| 0 <= i < hs.len() ==> is_header_value(#[trigger] hs[i].value@)
        }),
{
    let auth = concat2("Bearer ", cfg.token.as_str());
    if !header_value_ok(auth.as_str()) {
        return Err(Error::MissingToken);
    }
    let accept = owned("application/json");
    let ua = if header_value_ok(cfg.user_agent.as_str()) {
        owned(cfg.user_agent.as_str())
    } else {
        owned("stockbit-cli")
    };
    proof {
        reveal_strlit("application/json");
        reveal_strlit("stockbit-cli");
        assert(is_header_value(accept@));
        assert(is_header_value(ua@));
    }
    let mut hs: Vec<Header> = Vec::new();
    hs.push(header(HeaderName::Authorization, auth, true));
    hs.push(header(HeaderName::Accept, accept, false));
    hs.push(header(HeaderName::UserAgent, ua, false));
    Ok(hs)
}

/// The default headers of a client for `cfg`, by lower-case name: the bearer
/// token (sensitive), JSON accept, and the configured user agent, or
/// `stockbit-cli` when that is not a valid header value.
pub open spec fn stockbit_headers(cfg: Config) -> Map<Seq<char>, Seq<(Seq<char>, bool)>> {
    map![
        "authorization"@ => seq![(bearer(cfg.token@), true)],
        "accept"@ => seq![("application/json"@, false)],
        "user-agent"@ => seq![(if is_header_value(cfg.user_agent@) {
            cfg.user_agent@
        } else {
            "stockbit-cli"@
        }, false)],
    ]
}

proof fn lemma_stockbit_header_map(hs: Seq<Header>, cfg: Config)
    requires
        hs.len() == 3,
        hs[0].name == HeaderName::Authorization && hs[0].value@ == bearer(cfg.token@) && hs[0].sensitive,
        hs[1].name == HeaderName::Accept && hs[1].value@ == "application/json"@ && !hs[1].sensitive,
        hs[2].name == HeaderName::UserAgent && hs[2].value@ == (if is_header_value(cfg.user_agent@) {
            cfg.user_agent@
        } else {
            "stockbit-cli"@
        }) && !hs[2].sensitive,
    ensures
        installed_headers(header_map_of(hs)) == stockbit_headers(cfg),
        header_map_of(hs) == stockbit_headers(cfg),
{
    reveal_with_fuel(header_map_of, 4);
    assert(hs.drop_last().drop_last().drop_last() =~= Seq::<Header>::empty());
    assert(header_map_of(hs) =~= stockbit_headers(cfg));
    lemma_installed_header_map(hs);
}

impl Client {
    /// Build a client from `cfg`: default headers as [`request_headers`]
    /// gives them, the configured timeout, no cookie jar, and the base URL
    /// parsed with a trailing slash so that relative paths join under any
    /// mount point. A token that is not a valid header value is
    /// [`Error::MissingToken`]; what follows the HTTP client's build is
    /// [`Client::assemble`].
    pub fn new(cfg: &Config) -> (res: Result<Client, Error>)
        ensures
            res matches Err(Error::MissingToken) <==> !is_header_value(bearer(cfg.token@)),
            res matches Ok(c) ==> {
                &&& url_parse(slash_terminated(cfg.base_url@)) == Some(c.base@)
                &&& c.max_retries == cfg.max_retries
                &&& c.retry_base_nanos == DEFAULT_RETRY_BASE_NANOS
                &&& client_setup(c.http).0 == stockbit_headers(*cfg)
                &&& client_setup(c.http).1 == Some(cfg.request_timeout_secs as nat * 1_000_000_000)
                &&& !client_setup(c.http).2
            },
            res matches Err(Error::Url(_)) ==> url_parse(slash_terminated(cfg.base_url@)) is None,
            is_header_value(bearer(cfg.token@)) && url_parse(slash_terminated(cfg.base_url@))
                is None ==> res is Err,
            res matches Err(e) ==> (e is MissingToken || e is Http || e is Url),
    {
        let headers = request_headers(cfg)?;
        proof {
            lemma_stockbit_header_map(headers@, *cfg);
        }
        let built = build_http_client(header_map(&headers), false, cfg.request_timeout_secs);
        Self::assemble(built, cfg)
    }

    /// The client for `cfg` once its HTTP client's build has ended with
    /// `built`: the build's error as [`Error::Http`]; else the base URL parsed
    /// with a trailing slash ([`Error::Url`] when it does not parse), the
    /// configured retry count and a two-second backoff base.
    pub fn assemble(built: Result<ReqwestClient, ReqwestError>, cfg: &Config) -> (res: Result<
        Client,
        Error,
    >)
        ensures
            match built {
                Err(e) => res matches Err(err) && reports(err, e),
                Ok(h) => match url_parse(slash_terminated(cfg.base_url@)) {
                    None => res matches Err(Error::Url(_)),
                    Some(b) => res matches Ok(c) && c.http == h && c.base@ == b && c.max_retries
                        == cfg.max_retries && c.retry_base_nanos == DEFAULT_RETRY_BASE_NANOS,
                },
            },
    {
        let http = match built {
            Ok(h) => h,
            Err(e) => return Err(Error::from_reqwest(e)),
        };
        let base = with_trailing_slash(cfg.base_url.as_str())?;
        Ok(Client { http, base, max_retries: cfg.max_retries, retry_base_nanos: DEFAULT_RETRY_BASE_NANOS })
    }

    /// Override the retry backoff base (in nanoseconds).
    pub fn with_retry_base(self, nanos: u128) -> (res: Client)
        ensures
            res.retry_base_nanos == nanos,
            res.base == self.base,
            res.max_retries == self.max_retries,
    {
        Client { retry_base_nanos: nanos, ..self }
    }

    /// Resolve a relative path against the base URL. Leading `/` characters
    /// are stripped first so the path joins under the base's mount point.
    pub fn url(&self, path: &str) -> (res: Result<String, Error>)
        ensures
            res is Ok <==> url_join(self.base@, strip_leading_slashes(path@)) is Some,
            res matches Ok(u) ==> url_join(self.base@, strip_leading_slashes(path@)) == Some(u@),
            res matches Err(e) ==> e is Url,
    {
        let trimmed = strip_slashes(path);
        match join_url(self.base.as_str(), trimmed.as_str()) {
            Ok(u) => Ok(u),
            Err(e) => Err(Error::Url(e)),
        }
    }

    /// The URL `req` is sent to: its path resolved as [`Client::url`] does,
    /// then its query appended.
    pub fn request_url(&self, req: &ApiRequest) -> (res: Result<String, Error>)
        ensures
            match url_join(self.base@, strip_leading_slashes(req.path@)) {
                None => res matches Err(Error::Url(_)),
                Some(u) => match sent_url(u, query_view(req.query@)) {
                    None => res matches Err(Error::Url(_)),
                    Some(v) => res matches Ok(w) && w@ == v,
                },
            },
    {
        let u = self.url(req.path.as_str())?;
        url_for(u.as_str(), &req.query)
    }

    /// The retry policy for this client's requests.
    pub fn backoff(&self) -> (res: Backoff)
        requires
            self.retry_base_nanos <= MAX_DURATION_NANOS,
        ensures
            res.wf(),
            res.attempt == 0,
            res.max_retries == self.max_retries,
            res.base_nanos == self.retry_base_nanos,
    {
        Backoff::new(self.max_retries, self.retry_base_nanos)
    }
}

/// `path` without its leading `/` characters.
pub fn strip_slashes(path: &str) -> (res: String)
    ensures
        res@ == strip_leading_slashes(path@),
{
    let cs = chars_of(path);
    let mut i: usize = 0;
    assert(cs@.skip(0) =~= cs@);
    while i < cs.len() && cs[i] == '/'
        invariant
            cs@ == path@,
            i <= cs.len(),
            strip_leading_slashes(cs@.skip(i as int)) == strip_leading_slashes(path@),
        decreases cs.len() - i,
    {
        assert(cs@.skip(i as int).drop_first() =~= cs@.skip(i + 1));
        i = i + 1;
    }
    let mut out: Vec<char> = Vec::new();
    let mut j: usize = i;
    while j < cs.len()
        invariant
            cs@ == path@,
            i <= j <= cs.len(),
            out@ == cs@.subrange(i as int, j as int),
        decreases cs.len() - j,
    {
        out.push(cs[j]);
        assert(cs@.subrange(i as int, j as int).push(cs@[j as int]) =~= cs@.subrange(i as int, j + 1));
        j = j + 1;
    }
    assert(out@ =~= cs@.skip(i as int));
    assert(i < cs.len() ==> cs@.skip(i as int)[0] == cs@[i as int]);
    string_from_chars(&out)
}

/// The error for a non-success Stockbit answer: the status and the body cut
/// to 500 characters.
pub fn api_error(status: u16, body: &str) -> (res: Error)
    ensures
        res matches Error::Api { status: s, body: b } && s == status && b@ == truncated(body, 500),
{
    Error::Api { status, body: truncate(body, 500) }
}

} // verus!
