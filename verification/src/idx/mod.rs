//! IDX (Indonesia Stock Exchange) client. `idx.co.id` sits behind
//! Cloudflare, so the caller supplies a `cf_clearance` cookie earned by a real
//! browser (plus the matching user agent) and this client replays it. Answers
//! that are a Cloudflare challenge become [`Error::IdxChallenge`] rather than
//! a confusing parse error.

use reqwest::Client as ReqwestClient;
use reqwest::Error as ReqwestError;
use vstd::prelude::*;

use crate::api::{query_pair, query_view};
use crate::client::{strip_leading_slashes, strip_slashes};
use crate::error::Error;
use crate::error::reports;
use crate::http::{
    build_http_client, client_setup, header, header_map, header_map_of, header_value_ok,
    installed_headers, is_header_value, join_url, lemma_installed_header_map, url_join, url_parse,
    Header, HeaderName, PreparedRequest,
};
use crate::retry::{Backoff, MAX_DURATION_NANOS};
use crate::text::{chars_of, concat2, contains_str, has_substring, owned, string_from_chars};
use crate::util::{slash_terminated, truncate, truncated, with_trailing_slash};

pub mod broker_summary;
pub mod stock_summary;

verus! {

/// The real IDX host.
pub const REAL_BASE: &'static str = "https://www.idx.co.id";

/// A desktop-Chrome user agent. Override to match the browser that minted
/// the `cf_clearance` cookie (Cloudflare binds the clearance to the UA).
pub const DEFAULT_USER_AGENT: &'static str = "Mozilla/5.0 (X11; Linux x86_64) AppleWebKit/537.36 (KHTML, like Gecko) Chrome/124.0.0.0 Safari/537.36";

/// HTTP client for IDX trading summaries.
pub struct IdxClient {
    pub http: ReqwestClient,
    pub base: String,
    pub max_retries: u32,
    pub retry_base_nanos: u128,
}

/// The default headers: accept, the user agent, the IDX referer, and the
/// cookie (sensitive); [`Error::MissingIdxCookie`] when the user agent or the
/// cookie is not a valid header value.
pub fn request_headers(cookie: &str, user_agent: &str) -> (res: Result<Vec<Header>, Error>)
    ensures
        !(is_header_value(user_agent@) && is_header_value(cookie@)) ==> res matches Err(
            Error::MissingIdxCookie,
        ),
        is_header_value(user_agent@) && is_header_value(cookie@) ==> (res matches Ok(hs) && {
            &&& hs.len() == 4
            &&& hs[0].name == HeaderName::Accept && hs[0].value@
                == "application/json, text/plain, */*"@ && !hs[0].sensitive
            &&& hs[1].name == HeaderName::UserAgent && hs[1].value@ == user_agent@
                && !hs[1].sensitive
            &&& hs[2].name == HeaderName::Referer && hs[2].value@ == "https://www.idx.co.id/"@
                && !hs[2].sensitive
            &&& hs[3].name == HeaderName::Cookie && hs[3].value@ == cookie@ && hs[3].sensitive
            &&& forall|i: int| 0 <= i < hs.len() ==> is_header_value(#[trigger] hs[i].value@)
        }),
{
    if !header_value_ok(user_agent) {
        return Err(Error::MissingIdxCookie);
    }
    if !header_value_ok(cookie) {
        return Err(Error::MissingIdxCookie);
    }
    let accept = owned("application/json, text/plain, */*");
    let referer = owned("https://www.idx.co.id/");
    proof {
        reveal_strlit("application/json, text/plain, */*");
        reveal_strlit("https://www.idx.co.id/");
        assert(is_header_value(accept@));
        assert(is_header_value(referer@));
    }
    let mut hs: Vec<Header> = Vec::new();
    hs.push(header(HeaderName::Accept, accept, false));
    hs.push(header(HeaderName::UserAgent, owned(user_agent), false));
    hs.push(header(HeaderName::Referer, referer, false));
    hs.push(header(HeaderName::Cookie, owned(cookie), true));
    Ok(hs)
}

/// The default headers of an IDX client, by lower-case name: JSON-or-text
/// accept, the user agent, the IDX referer, and the cookie (sensitive).
pub open spec fn idx_headers(cookie: Seq<char>, user_agent: Seq<char>) -> Map<
    Seq<char>,
    Seq<(Seq<char>, bool)>,
> {
    map![
        "accept"@ => seq![("application/json, text/plain, */*"@, false)],
        "user-agent"@ => seq![(user_agent, false)],
        "referer"@ => seq![("https://www.idx.co.id/"@, false)],
        "cookie"@ => seq![(cookie, true)],
    ]
}

proof fn lemma_idx_header_map(hs: Seq<Header>, cookie: Seq<char>, user_agent: Seq<char>)
    requires
        hs.len() == 4,
        hs[0].name == HeaderName::Accept && hs[0].value@ == "application/json, text/plain, */*"@
            && !hs[0].sensitive,
        hs[1].name == HeaderName::UserAgent && hs[1].value@ == user_agent && !hs[1].sensitive,
        hs[2].name == HeaderName::Referer && hs[2].value@ == "https://www.idx.co.id/"@
            && !hs[2].sensitive,
        hs[3].name == HeaderName::Cookie && hs[3].value@ == cookie && hs[3].sensitive,
    ensures
        installed_headers(header_map_of(hs)) == idx_headers(cookie, user_agent),
{
    reveal_with_fuel(header_map_of, 5);
    assert(hs.drop_last().drop_last().drop_last().drop_last() =~= Seq::<Header>::empty());
    assert(header_map_of(hs) =~= idx_headers(cookie, user_agent));
    lemma_installed_header_map(hs);
}

impl IdxClient {
    /// A client for the real IDX host with a `cf_clearance`-bearing cookie.
    pub fn new(cookie: &str, user_agent: &str) -> (res: Result<IdxClient, Error>)
        ensures
            res matches Err(Error::MissingIdxCookie) <==> !(is_header_value(user_agent@)
                && is_header_value(cookie@)),
            res matches Ok(c) ==> {
                &&& url_parse(slash_terminated(REAL_BASE@)) == Some(c.base@)
                &&& c.max_retries == 3
                &&& c.retry_base_nanos == 2_000_000_000
                &&& client_setup(c.http).0 == idx_headers(cookie@, user_agent@)
                &&& client_setup(c.http).1 == Some(30_000_000_000nat)
                &&& !client_setup(c.http).2
            },
            res matches Err(e) ==> (e is MissingIdxCookie || e is Http || e is Url),
    {
        Self::with_base(REAL_BASE, cookie, user_agent)
    }

    /// A client against an explicit base URL, parsed with a trailing slash:
    /// the headers of [`request_headers`] as defaults, a 30-second timeout and
    /// no cookie jar. A cookie or user agent that is not a valid header value
    /// is [`Error::MissingIdxCookie`]; what follows the HTTP client's build is
    /// [`IdxClient::assemble`].
    pub fn with_base(base: &str, cookie: &str, user_agent: &str) -> (res: Result<IdxClient, Error>)
        ensures
            res matches Err(Error::MissingIdxCookie) <==> !(is_header_value(user_agent@)
                && is_header_value(cookie@)),
            res matches Ok(c) ==> {
                &&& url_parse(slash_terminated(base@)) == Some(c.base@)
                &&& c.max_retries == 3
                &&& c.retry_base_nanos == 2_000_000_000
                &&& client_setup(c.http).0 == idx_headers(cookie@, user_agent@)
                &&& client_setup(c.http).1 == Some(30_000_000_000nat)
                &&& !client_setup(c.http).2
            },
            res matches Err(Error::Url(_)) ==> url_parse(slash_terminated(base@)) is None,
            is_header_value(user_agent@) && is_header_value(cookie@) && url_parse(
                slash_terminated(base@),
            ) is None ==> res is Err,
            res matches Err(e) ==> (e is MissingIdxCookie || e is Http || e is Url),
    {
        let headers = request_headers(cookie, user_agent)?;
        proof {
            lemma_idx_header_map(headers@, cookie@, user_agent@);
        }
        let built = build_http_client(header_map(&headers), false, 30);
        Self::assemble(built, base)
    }

    /// The client for `base` once its HTTP client's build has ended with
    /// `built`: the build's error as [`Error::Http`]; else `base` parsed with
    /// a trailing slash ([`Error::Url`] when it does not parse), three retries
    /// and a two-second backoff base.
    pub fn assemble(built: Result<ReqwestClient, ReqwestError>, base: &str) -> (res: Result<
        IdxClient,
        Error,
    >)
        ensures
            match built {
                Err(e) => res matches Err(err) && reports(err, e),
                Ok(h) => match url_parse(slash_terminated(base@)) {
                    None => res matches Err(Error::Url(_)),
                    Some(b) => res matches Ok(c) && c.http == h && c.base@ == b && c.max_retries
                        == 3 && c.retry_base_nanos == 2_000_000_000,
                },
            },
    {
        let http = match built {
            Ok(h) => h,
            Err(e) => return Err(Error::from_reqwest(e)),
        };
        let base = with_trailing_slash(base)?;
        Ok(IdxClient { http, base, max_retries: 3, retry_base_nanos: 2_000_000_000 })
    }

    /// Override the retry backoff base (in nanoseconds).
    pub fn with_retry_base(self, nanos: u128) -> (res: IdxClient)
        ensures
            res.retry_base_nanos == nanos,
            res.base == self.base,
            res.max_retries == self.max_retries,
    {
        IdxClient { retry_base_nanos: nanos, ..self }
    }

    /// The retry policy for this client's requests.
    pub fn backoff(&self) -> (res: Backoff)
        requires
            self.retry_base_nanos <= MAX_DURATION_NANOS,
        ensures
            res.wf(),
            res.attempt == 0,
            res.max_retries == self.max_retries,
            res.base_nanos == self.retry_base_nanos,
    {
        Backoff::new(self.max_retries, self.retry_base_nanos)
    }

    /// `GET /primary/TradingSummary/{endpoint}` with the standard paging
    /// parameters and, when given, `date` with its dashes removed (YYYYMMDD).
    pub fn trading_summary_request(&self, endpoint: &str, date: Option<&str>) -> (res: Result<
        PreparedRequest,
        Error,
    >)
        ensures
            res is Ok <==> url_join(
                self.base@,
                strip_leading_slashes("/primary/TradingSummary/"@ + endpoint@),
            ) is Some,
            res matches Ok(r) ==> {
                &&& url_join(self.base@, strip_leading_slashes("/primary/TradingSummary/"@ + endpoint@))
                    == Some(r.url@)
                &&& query_view(r.query@) == seq![("length"@, "9999"@), ("start"@, "0"@)] + match date {
                    Some(d) => seq![("date"@, without_dashes(d@))],
                    None => Seq::empty(),
                }
            },
            res matches Err(e) ==> e is Url,
    {
        let path = concat2("/primary/TradingSummary/", endpoint);
        let trimmed = strip_slashes(path.as_str());
        let url = match join_url(self.base.as_str(), trimmed.as_str()) {
            Ok(u) => u,
            Err(e) => return Err(Error::Url(e)),
        };
        let mut query: Vec<(String, String)> = Vec::new();
        query.push(query_pair("length", "9999"));
        query.push(query_pair("start", "0"));
        let ghost base = query_view(query@);
        if let Some(d) = date {
            let compact = remove_dashes(d);
            query.push(query_pair("date", compact.as_str()));
        }
        assert(query_view(query@) =~= seq![("length"@, "9999"@), ("start"@, "0"@)] + match date {
            Some(d) => seq![("date"@, without_dashes(d@))],
            None => Seq::empty(),
        });
        Ok(PreparedRequest { url, query })
    }
}

/// `s` with every `-` removed.
pub open spec fn without_dashes(s: Seq<char>) -> Seq<char> {
    s.filter(|c: char| c != '-')
}

/// `s` with every `-` removed.
pub fn remove_dashes(s: &str) -> (res: String)
    ensures
        res@ == without_dashes(s@),
        forall|i: int| 0 <= i < res@.len() ==> res@[i] != '-',
        res@.len() <= s@.len(),
{
    proof {
        lemma_dashes_removed(s@);
    }
    let cs = chars_of(s);
    let mut out: Vec<char> = Vec::new();
    let mut i: usize = 0;
    while i < cs.len()
        invariant
            cs@ == s@,
            i <= cs.len(),
            out@ == without_dashes(cs@.take(i as int)),
        decreases cs.len() - i,
    {
        reveal_with_fuel(Seq::<char>::filter, 1);
        assert(cs@.take(i + 1).drop_last() =~= cs@.take(i as int));
        if cs[i] != '-' {
            out.push(cs[i]);
        }
        i = i + 1;
    }
    assert(cs@.take(cs.len() as int) =~= cs@);
    string_from_chars(&out)
}

/// Whether a `Content-Type` value names an HTML page.
pub open spec fn is_html_type(content_type: Option<Seq<char>>) -> bool {
    match content_type {
        Some(ct) => has_substring(ct, "text/html"@),
        None => false,
    }
}

/// Whether the answer carries JSON to decode: a success status and no HTML
/// content type.
pub fn is_json_answer(success: bool, content_type: Option<&str>) -> (res: bool)
    ensures
        res == (success && !is_html_type(match content_type {
            Some(c) => Some(c@),
            None => None,
        })),
{
    success && !html_type(content_type)
}

/// Whether a `Content-Type` value names an HTML page.
pub fn html_type(content_type: Option<&str>) -> (res: bool)
    ensures
        res == is_html_type(match content_type {
            Some(c) => Some(c@),
            None => None,
        }),
{
    match content_type {
        Some(ct) => {
            let cs = chars_of(ct);
            contains_str(&cs, "text/html")
        },
        None => false,
    }
}

/// Whether a failed answer is Cloudflare's challenge: a 403, an HTML page,
/// or a body with the interstitial's markers.
pub open spec fn is_challenge(status: u16, is_html: bool, body: Seq<char>) -> bool {
    status == 403 || is_html || has_substring(body, "Just a moment"@) || has_substring(
        body,
        "challenge-platform"@,
    )
}

/// The error for an answer that carries no JSON: [`Error::IdxChallenge`]
/// for Cloudflare's challenge, else the status and the body cut to 500
/// characters.
pub fn failure(status: u16, is_html: bool, body: &str) -> (res: Error)
    ensures
        status == 403 ==> res is IdxChallenge,
        is_html ==> res is IdxChallenge,
        has_substring(body@, "Just a moment"@) ==> res is IdxChallenge,
        has_substring(body@, "challenge-platform"@) ==> res is IdxChallenge,
        res is IdxChallenge || res is Idx,
        is_challenge(status, is_html, body@) ==> res is IdxChallenge,
        !is_challenge(status, is_html, body@) ==> (res matches Error::Idx { status: s, body: b }
            && s == status && b@ == truncated(body, 500)),
{
    let cs = chars_of(body);
    if status == 403 || is_html || contains_str(&cs, "Just a moment") || contains_str(
        &cs,
        "challenge-platform",
    ) {
        return Error::IdxChallenge;
    }
    Error::Idx { status, body: truncate(body, 500) }
}

/// Cloudflare's signals: a 403, an HTML page, or either interstitial marker
/// in the body each make an answer a challenge, whatever the rest holds;
/// an answer with none of them is not one.
pub proof fn lemma_challenge_signals(status: u16, is_html: bool, body: Seq<char>)
    ensures
        status == 403 ==> is_challenge(status, is_html, body),
        is_html ==> is_challenge(status, is_html, body),
        has_substring(body, "Just a moment"@) ==> is_challenge(status, is_html, body),
        has_substring(body, "challenge-platform"@) ==> is_challenge(status, is_html, body),
        status != 403 && !is_html && !has_substring(body, "Just a moment"@) && !has_substring(
            body,
            "challenge-platform"@,
        ) ==> !is_challenge(status, is_html, body),
{
}

/// Removing dashes leaves no dash and never lengthens the text; text
/// without dashes is left as it is.
pub proof fn lemma_dashes_removed(s: Seq<char>)
    ensures
        forall|i: int| 0 <= i < without_dashes(s).len() ==> #[trigger] without_dashes(s)[i] != '-',
        without_dashes(s).len() <= s.len(),
        !s.contains('-') ==> without_dashes(s) == s,
    decreases s.len(),
{
    let pred = |c: char| c != '-';
    s.lemma_filter_len(pred);
    assert forall|i: int| 0 <= i < without_dashes(s).len() implies #[trigger] without_dashes(s)[i]
        != '-' by {
        s.lemma_filter_pred(pred, i);
    }
    if s.len() > 0 {
        lemma_dashes_removed(s.drop_last());
        reveal_with_fuel(Seq::<char>::filter, 1);
        if !s.contains('-') {
            assert(!s.drop_last().contains('-')) by {
                if s.drop_last().contains('-') {
                    let k = choose|k: int| 0 <= k < s.drop_last().len() && s.drop_last()[k] == '-';
                    assert(s[k] == '-');
                }
            }
            assert(s[s.len() - 1] != '-');
            assert(s.drop_last().push(s.last()) =~= s);
        }
    } else {
        reveal_with_fuel(Seq::<char>::filter, 1);
        assert(without_dashes(s) =~= s);
    }
}

} // verus!
