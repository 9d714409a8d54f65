//! Yahoo Finance client: symbol suffixing, the URLs of the chart, crumb and
//! `quoteSummary` endpoints, and the checks on what Yahoo answers. The chart
//! API is open; `quoteSummary` needs a cookie + crumb handshake, whose URLs
//! and crumb check live here while the caller performs the requests.

use reqwest::Client as ReqwestClient;
use reqwest::Error as ReqwestError;
use vstd::prelude::*;

use crate::api::{
    lemma_normal_form, lemma_normalize_idempotent, normalize_symbol, normalized_symbol, query_pair,
    query_view,
};
use crate::error::Error;
use crate::error::reports;
use crate::http::{
    build_http_client, client_setup, header, header_map, header_map_of, installed_headers,
    is_header_value, join_url, lemma_installed_header_map, url_join, url_parse, Header,
    HeaderName, PreparedRequest,
};
use crate::retry::{Backoff, MAX_DURATION_NANOS};
use crate::text::{
    ascii_upper, is_white_space, lemma_ascii_upper_facts, lemma_trim_ends,
    chars_of, concat2, contains_char, ends_with, has_suffix, owned, string_from_chars,
    trim_chars, trim_spec,
};
use crate::util::{slash_terminated, truncate, truncated, with_trailing_slash};

pub mod analyst;
pub mod daily;
pub mod quote;
pub mod summary;

verus! {

/// Host of the open chart API.
pub const REAL_CHART_BASE: &'static str = "https://query1.finance.yahoo.com";

/// Host of the `quoteSummary` and crumb endpoints.
pub const REAL_QUERY_BASE: &'static str = "https://query2.finance.yahoo.com";

/// Host that sets the session cookie.
pub const REAL_COOKIE_BASE: &'static str = "https://fc.yahoo.com";

/// Browser-like user agent; Yahoo rejects bot-ish ones on the crumb handshake.
pub const BROWSER_UA: &'static str = "Mozilla/5.0 (X11; Linux x86_64) AppleWebKit/537.36 (KHTML, like Gecko) Chrome/124.0.0.0 Safari/537.36";

/// The Indonesia Stock Exchange symbol: the normalized symbol with `.JK`
/// appended unless it already ends with it.
pub open spec fn jk_symbol_spec(s: Seq<char>) -> Seq<char> {
    let n = normalized_symbol(s);
    if has_suffix(n, ".JK"@) {
        n
    } else {
        n + ".JK"@
    }
}

/// Append the `.JK` suffix to a normalized symbol (idempotent: `BBRI.JK`
/// stays `BBRI.JK`).
pub fn jk_symbol(symbol: &str) -> (res: String)
    ensures
        res@ == jk_symbol_spec(symbol@),
{
    let n = normalize_symbol(symbol);
    let cs = chars_of(n.as_str());
    if ends_with(&cs, ".JK") {
        n
    } else {
        concat2(n.as_str(), ".JK")
    }
}

/// HTTP client for Yahoo Finance, with a cookie jar for the crumb handshake.
pub struct YahooClient {
    pub http: ReqwestClient,
    pub chart_base: String,
    pub query_base: String,
    pub cookie_base: String,
    pub max_retries: u32,
    pub retry_base_nanos: u128,
}

/// The two default headers of the Yahoo client.
fn yahoo_headers() -> (res: Vec<Header>)
    ensures
        res.len() == 2,
        res[0].name == HeaderName::Accept && res[0].value@ == "application/json"@ && !res[0].sensitive,
        res[1].name == HeaderName::UserAgent && res[1].value@ == BROWSER_UA@ && !res[1].sensitive,
        forall|i: int| 0 <= i < res.len() ==> is_header_value(#[trigger] res[i].value@),
{
    let accept = owned("application/json");
    let ua = owned(BROWSER_UA);
    proof {
        reveal_strlit("application/json");
        reveal_strlit("Mozilla/5.0 (X11; Linux x86_64) AppleWebKit/537.36 (KHTML, like Gecko) Chrome/124.0.0.0 Safari/537.36");
        assert(is_header_value(accept@));
        assert(is_header_value(ua@));
    }
    let mut hs: Vec<Header> = Vec::new();
    hs.push(header(HeaderName::Accept, accept, false));
    hs.push(header(HeaderName::UserAgent, ua, false));
    hs
}

/// The default headers of the Yahoo client, by lower-case name: JSON accept
/// and the browser-like user agent.
pub open spec fn yahoo_header_entries() -> Map<Seq<char>, Seq<(Seq<char>, bool)>> {
    map![
        "accept"@ => seq![("application/json"@, false)],
        "user-agent"@ => seq![(BROWSER_UA@, false)],
    ]
}

proof fn lemma_yahoo_header_map(hs: Seq<Header>)
    requires
        hs.len() == 2,
        hs[0].name == HeaderName::Accept && hs[0].value@ == "application/json"@ && !hs[0].sensitive,
        hs[1].name == HeaderName::UserAgent && hs[1].value@ == BROWSER_UA@ && !hs[1].sensitive,
    ensures
        installed_headers(header_map_of(hs)) == yahoo_header_entries(),
{
    reveal_with_fuel(header_map_of, 3);
    assert(hs.drop_last().drop_last() =~= Seq::<Header>::empty());
    assert(header_map_of(hs) =~= yahoo_header_entries());
    lemma_installed_header_map(hs);
}

impl YahooClient {
    /// Build a client pointing at the real Yahoo Finance hosts.
    pub fn new() -> (res: Result<YahooClient, Error>)
        ensures
            res matches Ok(c) ==> {
                &&& url_parse(slash_terminated(REAL_CHART_BASE@)) == Some(c.chart_base@)
                &&& url_parse(slash_terminated(REAL_QUERY_BASE@)) == Some(c.query_base@)
                &&& url_parse(slash_terminated(REAL_COOKIE_BASE@)) == Some(c.cookie_base@)
                &&& c.max_retries == 3
                &&& c.retry_base_nanos == 2_000_000_000
                &&& client_setup(c.http).0 == yahoo_header_entries()
                &&& client_setup(c.http).1 == Some(30_000_000_000nat)
                &&& client_setup(c.http).2
            },
            res matches Err(e) ==> (e is Http || e is Url),
    {
        Self::with_bases(REAL_CHART_BASE, REAL_QUERY_BASE, REAL_COOKIE_BASE)
    }

    /// Build a client with explicit base URLs, each parsed with a trailing
    /// slash: JSON accept and a browser-like user agent as default headers,
    /// a 30-second timeout, and a cookie jar for the crumb handshake. What
    /// follows the HTTP client's build is [`YahooClient::assemble`].
    pub fn with_bases(chart_base: &str, query_base: &str, cookie_base: &str) -> (res: Result<
        YahooClient,
        Error,
    >)
        ensures
            res matches Ok(c) ==> {
                &&& url_parse(slash_terminated(chart_base@)) == Some(c.chart_base@)
                &&& url_parse(slash_terminated(query_base@)) == Some(c.query_base@)
                &&& url_parse(slash_terminated(cookie_base@)) == Some(c.cookie_base@)
                &&& c.max_retries == 3
                &&& c.retry_base_nanos == 2_000_000_000
                &&& client_setup(c.http).0 == yahoo_header_entries()
                &&& client_setup(c.http).1 == Some(30_000_000_000nat)
                &&& client_setup(c.http).2
            },
            url_parse(slash_terminated(chart_base@)) is None || url_parse(
                slash_terminated(query_base@),
            ) is None || url_parse(slash_terminated(cookie_base@)) is None ==> res is Err,
            res matches Err(Error::Url(_)) ==> (url_parse(slash_terminated(chart_base@)) is None
                || url_parse(slash_terminated(query_base@)) is None || url_parse(
                slash_terminated(cookie_base@),
            ) is None),
            res matches Err(e) ==> (e is Http || e is Url),
    {
        let headers = yahoo_headers();
        proof {
            lemma_yahoo_header_map(headers@);
        }
        let built = build_http_client(header_map(&headers), true, 30);
        Self::assemble(built, chart_base, query_base, cookie_base)
    }

    /// The client for the three bases once its HTTP client's build has ended
    /// with `built`: the build's error as [`Error::Http`]; else the bases
    /// parsed with a trailing slash, in order, the first that does not parse
    /// giving [`Error::Url`]; three retries and a two-second backoff base.
    pub fn assemble(
        built: Result<ReqwestClient, ReqwestError>,
        chart_base: &str,
        query_base: &str,
        cookie_base: &str,
    ) -> (res: Result<YahooClient, Error>)
        ensures
            match built {
                Err(e) => res matches Err(err) && reports(err, e),
                Ok(h) => if url_parse(slash_terminated(chart_base@)) is Some && url_parse(
                    slash_terminated(query_base@),
                ) is Some && url_parse(slash_terminated(cookie_base@)) is Some {
                    res matches Ok(c) && c.http == h && Some(c.chart_base@) == url_parse(
                        slash_terminated(chart_base@),
                    ) && Some(c.query_base@) == url_parse(slash_terminated(query_base@))
                        && Some(c.cookie_base@) == url_parse(slash_terminated(cookie_base@))
                        && c.max_retries == 3 && c.retry_base_nanos == 2_000_000_000
                } else {
                    res matches Err(Error::Url(_))
                },
            },
    {
        let http = match built {
            Ok(h) => h,
            Err(e) => return Err(Error::from_reqwest(e)),
        };
        let chart_base = with_trailing_slash(chart_base)?;
        let query_base = with_trailing_slash(query_base)?;
        let cookie_base = with_trailing_slash(cookie_base)?;
        Ok(YahooClient {
            http,
            chart_base,
            query_base,
            cookie_base,
            max_retries: 3,
            retry_base_nanos: 2_000_000_000,
        })
    }

    /// A client whose every Yahoo host is `base`.
    pub fn for_test(base: &str) -> (res: Result<YahooClient, Error>)
        ensures
            res matches Ok(c) ==> {
                &&& url_parse(slash_terminated(base@)) == Some(c.chart_base@)
                &&& c.chart_base@ == c.query_base@
                &&& c.query_base@ == c.cookie_base@
                &&& c.max_retries == 3
                &&& c.retry_base_nanos == 2_000_000_000
                &&& client_setup(c.http).0 == yahoo_header_entries()
                &&& client_setup(c.http).1 == Some(30_000_000_000nat)
                &&& client_setup(c.http).2
            },
            url_parse(slash_terminated(base@)) is None ==> res is Err,
            res matches Err(e) ==> (e is Http || e is Url),
    {
        Self::with_bases(base, base, base)
    }

    /// Override the retry backoff base (in nanoseconds).
    pub fn with_retry_base(self, nanos: u128) -> (res: YahooClient)
        ensures
            res.retry_base_nanos == nanos,
            res.chart_base == self.chart_base,
            res.query_base == self.query_base,
            res.cookie_base == self.cookie_base,
            res.max_retries == self.max_retries,
    {
        YahooClient { retry_base_nanos: nanos, ..self }
    }

    /// The retry policy for this client's requests.
    pub fn backoff(&self) -> (res: Backoff)
        requires
            self.retry_base_nanos <= MAX_DURATION_NANOS,
        ensures
            res.wf(),
            res.attempt == 0,
            res.max_retries == self.max_retries,
            res.base_nanos == self.retry_base_nanos,
    {
        Backoff::new(self.max_retries, self.retry_base_nanos)
    }

    /// The chart request for `symbol` (`.JK` appended) with `query`.
    pub fn chart_request(&self, symbol: &str, query: Vec<(String, String)>) -> (res: Result<
        PreparedRequest,
        Error,
    >)
        ensures
            res is Ok <==> url_join(self.chart_base@, "v8/finance/chart/"@ + jk_symbol_spec(symbol@))
                is Some,
            res matches Ok(r) ==> {
                &&& url_join(self.chart_base@, "v8/finance/chart/"@ + jk_symbol_spec(symbol@))
                    == Some(r.url@)
                &&& r.query == query
            },
            res matches Err(e) ==> e is Url,
    {
        let sym = jk_symbol(symbol);
        let path = concat2("v8/finance/chart/", sym.as_str());
        match join_url(self.chart_base.as_str(), path.as_str()) {
            Ok(url) => Ok(PreparedRequest { url, query }),
            Err(e) => Err(Error::Url(e)),
        }
    }

    /// The URL that warms the cookie jar.
    pub fn cookie_url(&self) -> (res: String)
        ensures
            res@ == self.cookie_base@,
    {
        owned(self.cookie_base.as_str())
    }

    /// The URL that hands out a crumb.
    pub fn crumb_url(&self) -> (res: Result<String, Error>)
        ensures
            res is Ok <==> url_join(self.query_base@, "v1/test/getcrumb"@) is Some,
            res matches Ok(u) ==> url_join(self.query_base@, "v1/test/getcrumb"@) == Some(u@),
            res matches Err(e) ==> e is Url,
    {
        match join_url(self.query_base.as_str(), "v1/test/getcrumb") {
            Ok(u) => Ok(u),
            Err(e) => Err(Error::Url(e)),
        }
    }

    /// The `quoteSummary` request for `symbol` (`.JK` appended), asking for
    /// `modules` with `crumb`.
    pub fn quote_summary_request(&self, symbol: &str, modules: &str, crumb: &str) -> (res: Result<
        PreparedRequest,
        Error,
    >)
        ensures
            res is Ok <==> url_join(
                self.query_base@,
                "v10/finance/quoteSummary/"@ + jk_symbol_spec(symbol@),
            ) is Some,
            res matches Ok(r) ==> {
                &&& url_join(self.query_base@, "v10/finance/quoteSummary/"@ + jk_symbol_spec(symbol@))
                    == Some(r.url@)
                &&& query_view(r.query@) == seq![("modules"@, modules@), ("crumb"@, crumb@)]
            },
            res matches Err(e) ==> e is Url,
    {
        let sym = jk_symbol(symbol);
        let path = concat2("v10/finance/quoteSummary/", sym.as_str());
        match join_url(self.query_base.as_str(), path.as_str()) {
            Ok(url) => {
                let mut query: Vec<(String, String)> = Vec::new();
                query.push(query_pair("modules", modules));
                query.push(query_pair("crumb", crumb));
                assert(query_view(query@) =~= seq![("modules"@, modules@), ("crumb"@, crumb@)]);
                Ok(PreparedRequest { url, query })
            },
            Err(e) => Err(Error::Url(e)),
        }
    }
}

/// Whether a trimmed crumb answer is a usable crumb: non-empty and neither
/// JSON nor HTML.
pub open spec fn is_usable_crumb(t: Seq<char>) -> bool {
    t.len() > 0 && !t.contains('{') && !t.contains('<')
}

/// The crumb from the handshake's answer: a success status and a body that,
/// trimmed, is a usable crumb; [`Error::Crumb`] otherwise.
pub fn crumb_from_response(success: bool, body: &str) -> (res: Result<String, Error>)
    ensures
        success && is_usable_crumb(trim_spec(body@)) ==> (res matches Ok(c) && c@ == trim_spec(
            body@,
        )),
        !(success && is_usable_crumb(trim_spec(body@))) ==> res matches Err(Error::Crumb),
{
    if !success {
        return Err(Error::Crumb);
    }
    let t = trim_chars(body);
    if t.len() == 0 || contains_char(&t, '{') || contains_char(&t, '<') {
        return Err(Error::Crumb);
    }
    Ok(string_from_chars(&t))
}

/// The error for a non-success Yahoo answer: the status and the body cut to
/// 500 characters.
pub fn status_error(status: u16, body: &str) -> (res: Error)
    ensures
        res matches Error::Yahoo { status: s, body: b } && s == status && b@ == truncated(body, 500),
{
    Error::Yahoo { status, body: truncate(body, 500) }
}

/// A payload's own error report (`chart.error.description` or
/// `quoteSummary.error.description`) as [`Error::Yahoo`] with status 200.
pub fn reported_error(description: Option<&str>) -> (res: Result<(), Error>)
    ensures
        match description {
            Some(d) => res matches Err(Error::Yahoo { status, body }) && status == 200 && body@
                == d@,
            None => res is Ok,
        },
{
    match description {
        Some(d) => Err(Error::Yahoo { status: 200, body: owned(d) }),
        None => Ok(()),
    }
}


/// Suffixing twice is suffixing once: `jk_symbol(jk_symbol(s)) == jk_symbol(s)`.
pub proof fn lemma_jk_symbol_idempotent(s: Seq<char>)
    ensures
        jk_symbol_spec(jk_symbol_spec(s)) == jk_symbol_spec(s),
{
    let n = normalized_symbol(s);
    lemma_normalize_idempotent(s);
    let j = jk_symbol_spec(s);
    reveal_strlit(".JK");
    let sfx = ".JK"@;
    assert(sfx =~= seq!['.', 'J', 'K']);
    // `n` has no white space at its ends and is upper case.
    let t = trim_spec(s);
    lemma_trim_ends(s);
    lemma_ascii_upper_facts(t);
    if n.len() > 0 {
        assert(is_white_space(n[0]) == is_white_space(t[0]));
        assert(is_white_space(n[n.len() - 1]) == is_white_space(t[t.len() - 1]));
    }
    if has_suffix(n, sfx) {
        assert(j == n);
        lemma_normal_form(n);
        assert(jk_symbol_spec(j) == j);
    } else {
        assert(j == n + sfx);
        assert(ascii_upper(j) =~= j) by {
            assert(ascii_upper(n) == n);
            assert forall|i: int| 0 <= i < j.len() implies #[trigger] ascii_upper(j)[i] == j[i] by {
                if i < n.len() {
                    assert(j[i] == n[i]);
                    assert(ascii_upper(n)[i] == n[i]);
                }
            }
        }
        assert(j.last() == 'K');
        if n.len() == 0 {
            assert(j[0] == '.');
        } else {
            assert(j[0] == n[0]);
        }
        lemma_normal_form(j);
        assert(j.skip(j.len() - 3) =~= sfx);
        assert(has_suffix(j, sfx));
    }
}

} // verus!
