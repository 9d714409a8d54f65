//! The outside HTTP and URL machinery the clients are built from: URL
//! parsing and joining, header-value validity, and construction of the
//! HTTP client that sends requests.

use reqwest::Client as ReqwestClient;
use reqwest::Error as ReqwestError;
use reqwest::header as h;
use reqwest::header::HeaderMap;
use vstd::prelude::*;

use crate::api::query_view;
use crate::error::Error;
use crate::text::owned;

verus! {

/// Declares the HTTP client type so the crate's clients can hold one.
#[verifier::external_type_specification]
#[verifier::external_body]
pub struct ExReqwestClient(ReqwestClient);

/// The serialization of `Url::parse(s)`, or `None` where it fails.
pub uninterp spec fn url_parse(s: Seq<char>) -> Option<Seq<char>>;

/// The serialization of `Url::parse(base)` joined with `input` by `Url::join`,
/// or `None` where either step fails.
pub uninterp spec fn url_join(base: Seq<char>, input: Seq<char>) -> Option<Seq<char>>;

/// `url::Url::parse`, returning the parsed URL's serialization. The contract
/// names the result (`url_parse`); what the serialization holds is not stated.
#[verifier::external_body]
pub(crate) fn parse_url(s: &str) -> (res: Result<String, url::ParseError>)
    ensures
        res is Ok <==> url_parse(s@) is Some,
        res matches Ok(u) ==> url_parse(s@) == Some(u@),
{
    match url::Url::parse(s) {
        Ok(u) => Ok(String::from(u)),
        Err(e) => Err(e),
    }
}

/// `url::Url::parse(base)` followed by `url::Url::join(input)`, returning the
/// serialization. The contract names the result (`url_join`); what the
/// serialization holds is not stated.
#[verifier::external_body]
pub(crate) fn join_url(base: &str, input: &str) -> (res: Result<String, url::ParseError>)
    ensures
        res is Ok <==> url_join(base@, input@) is Some,
        res matches Ok(u) ==> url_join(base@, input@) == Some(u@),
{
    match url::Url::parse(base) {
        Ok(b) => match b.join(input) {
            Ok(u) => Ok(String::from(u)),
            Err(e) => Err(e),
        },
        Err(e) => Err(e),
    }
}

/// What `HeaderValue::from_str` accepts: every byte is a tab or at least 32
/// and not DEL. Bytes of a multi-byte character are all at least 128, so per
/// character: a tab, or a code point of at least 32 other than 127.
pub open spec fn is_header_value(s: Seq<char>) -> bool {
    forall|i: int|
        0 <= i < s.len() ==> (#[trigger] s[i] == '\t' || ((s[i] as u32) >= 32 && (s[i] as u32)
            != 127))
}

/// `reqwest::header::HeaderValue::from_str(s).is_ok()`: whether `s` is a valid
/// header value.
#[verifier::external_body]
pub(crate) fn header_value_ok(s: &str) -> (res: bool)
    ensures
        res == is_header_value(s@),
{
    reqwest::header::HeaderValue::from_str(s).is_ok()
}

/// The request headers the clients set.
#[derive(Debug, Clone, Copy, PartialEq, Eq)]
pub enum HeaderName {
    Accept,
    Authorization,
    Cookie,
    Referer,
    UserAgent,
}

/// One default header: its name, value, and whether it is marked sensitive
/// (kept out of debug output).
#[derive(Debug, Clone, PartialEq, Eq)]
pub struct Header {
    pub name: HeaderName,
    pub value: String,
    pub sensitive: bool,
}

/// A header of `name` with value `value`.
pub fn header(name: HeaderName, value: String, sensitive: bool) -> (h: Header)
    ensures
        h.name == name,
        h.value == value,
        h.sensitive == sensitive,
{
    Header { name, value, sensitive }
}

/// Declares the header value type, the items of a header map.
#[verifier::external_type_specification]
#[verifier::external_body]
pub struct ExHeaderValue(h::HeaderValue);

/// Declares the header collection so verified code can fill one.
#[verifier::external_type_specification]
#[verifier::external_body]
#[verifier::reject_recursive_types(T)]
pub struct ExHeaderMap<T>(HeaderMap<T>);

/// What a header map holds: for each header name (lower case), its values in
/// order, each with its sensitivity flag.
pub uninterp spec fn header_entries(m: HeaderMap) -> Map<Seq<char>, Seq<(Seq<char>, bool)>>;

/// The lower-case name of a header, as `http` spells it.
pub open spec fn header_name_text(n: HeaderName) -> Seq<char> {
    match n {
        HeaderName::Accept => "accept"@,
        HeaderName::Authorization => "authorization"@,
        HeaderName::Cookie => "cookie"@,
        HeaderName::Referer => "referer"@,
        HeaderName::UserAgent => "user-agent"@,
    }
}

/// `HeaderMap::with_capacity(capacity)`: a map holding nothing, with room
/// for about `capacity` names. It panics only when the room asked for passes
/// the maximum size (2^15 slots), which fewer than 1024 names never do.
#[verifier::external_body]
fn new_header_map(capacity: usize) -> (res: HeaderMap)
    requires
        capacity < 1024,
    ensures
        header_entries(res).dom() == Set::<Seq<char>>::empty(),
{
    HeaderMap::with_capacity(capacity)
}

/// `HeaderMap::insert` of the value `HeaderValue::from_str(value)`, marked
/// sensitive or not with `set_sensitive`, under `name`: the name then holds
/// that one value and its earlier values are gone. `insert` panics only when
/// the map outgrows its maximum size (2^15 slots), which fewer than 1024
/// names never reach.
#[verifier::external_body]
fn insert_header(m: &mut HeaderMap, name: HeaderName, value: &str, sensitive: bool)
    requires
        is_header_value(value@),
        header_entries(*old(m)).dom().finite(),
        header_entries(*old(m)).dom().len() < 1024,
    ensures
        header_entries(*final(m)) == header_entries(*old(m)).insert(
            header_name_text(name),
            seq![(value@, sensitive)],
        ),
{
    let mut v = h::HeaderValue::from_str(value).expect("validated header value");
    v.set_sensitive(sensitive);
    let key = match name {
        HeaderName::Accept => h::ACCEPT,
        HeaderName::Authorization => h::AUTHORIZATION,
        HeaderName::Cookie => h::COOKIE,
        HeaderName::Referer => h::REFERER,
        HeaderName::UserAgent => h::USER_AGENT,
    };
    m.insert(key, v);
}

/// The map `headers` fill when inserted in order: a later header replaces an
/// earlier one of the same name.
pub open spec fn header_map_of(hs: Seq<Header>) -> Map<Seq<char>, Seq<(Seq<char>, bool)>>
    decreases hs.len(),
{
    if hs.len() == 0 {
        Map::empty()
    } else {
        header_map_of(hs.drop_last()).insert(
            header_name_text(hs.last().name),
            seq![(hs.last().value@, hs.last().sensitive)],
        )
    }
}

proof fn lemma_header_map_of_size(hs: Seq<Header>)
    ensures
        header_map_of(hs).dom().finite(),
        header_map_of(hs).dom().len() <= hs.len(),
    decreases hs.len(),
{
    if hs.len() > 0 {
        lemma_header_map_of_size(hs.drop_last());
    }
}

/// The header map holding `headers`, inserted in order.
pub fn header_map(headers: &Vec<Header>) -> (m: HeaderMap)
    requires
        headers.len() < 1024,
        forall|i: int| 0 <= i < headers.len() ==> is_header_value(#[trigger] headers[i].value@),
    ensures
        header_entries(m) == header_map_of(headers@),
{
    let mut m = new_header_map(headers.len());
    let mut i: usize = 0;
    assert(headers@.take(0) =~= Seq::<Header>::empty());
    while i < headers.len()
        invariant
            i <= headers.len() < 1024,
            forall|j: int| 0 <= j < headers.len() ==> is_header_value(#[trigger] headers[j].value@),
            header_entries(m) == header_map_of(headers@.take(i as int)),
        decreases headers.len() - i,
    {
        proof {
            lemma_header_map_of_size(headers@.take(i as int));
        }
        let hd = &headers[i];
        insert_header(&mut m, hd.name, hd.value.as_str(), hd.sensitive);
        assert(headers@.take(i + 1).drop_last() =~= headers@.take(i as int));
        i = i + 1;
    }
    assert(headers@.take(headers.len() as int) =~= headers@);
    m
}

/// The lasting setup of a built HTTP client: the default headers it adds to
/// every request (for each lower-case name, its values with their sensitivity
/// flags), its whole-request timeout in nanoseconds, and whether it keeps a
/// cookie jar.
pub uninterp spec fn client_setup(c: ReqwestClient) -> (
    Map<Seq<char>, Seq<(Seq<char>, bool)>>,
    Option<nat>,
    bool,
);

/// The default headers a client builder ends with when handed `entries`:
/// it starts from `accept: */*`, then inserts each entry's values in turn,
/// so the last value of each name replaces what was there.
pub open spec fn installed_headers(entries: Map<Seq<char>, Seq<(Seq<char>, bool)>>) -> Map<
    Seq<char>,
    Seq<(Seq<char>, bool)>,
> {
    map!["accept"@ => seq![("*/*"@, false)]].union_prefer_right(
        entries.map_values(|vs: Seq<(Seq<char>, bool)>| seq![vs.last()]),
    )
}

/// `reqwest::Client::builder()` with `headers` as default headers, the cookie
/// jar on or off, and a whole-request timeout of `timeout_secs` seconds, then
/// `build()`. The builder starts with `accept: */*` and `default_headers`
/// inserts each of `headers`' values over it; a built client keeps those
/// headers, the timeout and the jar setting. Whether the build succeeds
/// depends on the system's TLS setup, which no clause states.
#[verifier::external_body]
pub(crate) fn build_http_client(headers: HeaderMap, cookie_store: bool, timeout_secs: u64) -> (res:
    Result<ReqwestClient, ReqwestError>)
    ensures
        res matches Ok(c) ==> client_setup(c).0 == installed_headers(header_entries(headers)),
        res matches Ok(c) ==> client_setup(c).1 == Some(timeout_secs as nat * 1_000_000_000),
        res matches Ok(c) ==> client_setup(c).2 == cookie_store,
{
    let timeout = std::time::Duration::from_secs(timeout_secs);
    ReqwestClient::builder().default_headers(headers).cookie_store(cookie_store).timeout(timeout).build()
}

/// Every name of a map filled from `hs` holds exactly one value.
proof fn lemma_header_map_of_single(hs: Seq<Header>)
    ensures
        forall|k: Seq<char>| #[trigger] header_map_of(hs).dom().contains(k) ==> header_map_of(hs)[k].len() == 1,
    decreases hs.len(),
{
    if hs.len() > 0 {
        let prev = header_map_of(hs.drop_last());
        lemma_header_map_of_single(hs.drop_last());
        let key = header_name_text(hs.last().name);
        assert forall|k: Seq<char>| #[trigger] header_map_of(hs).dom().contains(k) implies header_map_of(
            hs,
        )[k].len() == 1 by {
            if k != key {
                assert(prev.dom().contains(k));
            }
        }
    }
}

/// A client built from a map that sets `accept` and holds one value per name
/// ends with exactly that map as its default headers.
pub proof fn lemma_installed_header_map(hs: Seq<Header>)
    requires
        header_map_of(hs).dom().contains("accept"@),
    ensures
        installed_headers(header_map_of(hs)) == header_map_of(hs),
{
    let m = header_map_of(hs);
    lemma_header_map_of_single(hs);
    let mv = m.map_values(|vs: Seq<(Seq<char>, bool)>| seq![vs.last()]);
    assert forall|k: Seq<char>| #[trigger] m.dom().contains(k) implies mv[k] == m[k] by {
        assert(m[k].len() == 1);
        assert(seq![m[k].last()] =~= m[k]);
    }
    assert(mv =~= m);
    assert(installed_headers(m) =~= m);
}

/// The serialization of `Url::parse(url)` after its query pairs serializer
/// has appended `query` (form-urlencoded, in order), or `None` where the
/// parse fails.
pub uninterp spec fn url_with_query(url: Seq<char>, query: Seq<(Seq<char>, Seq<char>)>) -> Option<
    Seq<char>,
>;

/// `url::Url::parse(url)` then `query_pairs_mut().extend_pairs(query)`,
/// returning the serialization. The contract names the result
/// (`url_with_query`); the encoding is not restated.
#[verifier::external_body]
pub(crate) fn append_query(url: &str, query: &Vec<(String, String)>) -> (res: Result<
    String,
    url::ParseError,
>)
    ensures
        res is Ok <==> url_with_query(url@, query_view(query@)) is Some,
        res matches Ok(u) ==> url_with_query(url@, query_view(query@)) == Some(u@),
{
    match url::Url::parse(url) {
        Ok(mut u) => {
            u.query_pairs_mut().extend_pairs(query.iter().map(|p| (p.0.as_str(), p.1.as_str())));
            Ok(String::from(u))
        },
        Err(e) => Err(e),
    }
}

/// The URL a request with query `query` is sent to: `url` itself when there
/// are no pairs, else `url` with the pairs appended.
pub open spec fn sent_url(url: Seq<char>, query: Seq<(Seq<char>, Seq<char>)>) -> Option<Seq<char>> {
    if query.len() == 0 {
        Some(url)
    } else {
        url_with_query(url, query)
    }
}

/// `url` with `query` appended as the request sends it: unchanged when there
/// are no pairs.
pub fn url_for(url: &str, query: &Vec<(String, String)>) -> (res: Result<String, Error>)
    ensures
        res is Ok <==> sent_url(url@, query_view(query@)) is Some,
        res matches Ok(u) ==> sent_url(url@, query_view(query@)) == Some(u@),
        res matches Err(e) ==> e is Url,
{
    if query.len() == 0 {
        return Ok(owned(url));
    }
    match append_query(url, query) {
        Ok(u) => Ok(u),
        Err(e) => Err(Error::Url(e)),
    }
}

/// A GET request to an absolute URL with query pairs appended in order.
#[derive(Debug, Clone, PartialEq, Eq)]
pub struct PreparedRequest {
    pub url: String,
    pub query: Vec<(String, String)>,
}

impl PreparedRequest {
    /// The URL this request is sent to: its URL with its query appended.
    pub fn full_url(&self) -> (res: Result<String, Error>)
        ensures
            res is Ok <==> sent_url(self.url@, query_view(self.query@)) is Some,
            res matches Ok(u) ==> sent_url(self.url@, query_view(self.query@)) == Some(u@),
            res matches Err(e) ==> e is Url,
    {
        url_for(self.url.as_str(), &self.query)
    }
}

} // verus!
