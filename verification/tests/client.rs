//! The Stockbit client: headers and URL building.

use stockbit_cli::client::{api_error, request_headers, Client};
use stockbit_cli::config::Config;
use stockbit_cli::error::Error;
use stockbit_cli::http::{header_map, HeaderName};

fn test_client(base: &str) -> Client {
    Client::new(&Config::for_test(base, "test-token")).expect("client builds").with_retry_base(1_000_000)
}

#[test]
fn sends_bearer_token_and_user_agent() {
    let hs = request_headers(&Config::for_test("http://127.0.0.1:9", "test-token")).unwrap();
    assert_eq!(hs[0].name, HeaderName::Authorization);
    assert_eq!(hs[0].value, "Bearer test-token");
    assert!(hs[0].sensitive);
    assert_eq!(hs[1].value, "application/json");
    assert_eq!(hs[2].name, HeaderName::UserAgent);
}

#[test]
fn invalid_token_counts_as_missing() {
    let cfg = Config::for_test("http://127.0.0.1:9", "bad\ntoken");
    assert!(matches!(Client::new(&cfg), Err(Error::MissingToken)));
}

#[test]
fn url_joining_preserves_path_segments() {
    let u = test_client("http://127.0.0.1:9").url("/keystats/ratio/v1/BBRI").unwrap();
    assert!(url::Url::parse(&u).unwrap().path().ends_with("/keystats/ratio/v1/BBRI"));
}

#[test]
fn base_url_without_trailing_slash_preserves_mount_point() {
    let c = test_client("http://127.0.0.1:9/api");
    let u = c.url("/keystats/v1/BBRI").unwrap();
    assert_eq!(url::Url::parse(&u).unwrap().path(), "/api/keystats/v1/BBRI");
}

#[test]
fn returns_api_error_on_4xx_without_retry() {
    let e = api_error(404, "nope");
    assert!(matches!(e, Error::Api { status: 404, ref body } if body == "nope"));
    assert!(!e.is_transient());
}

#[test]
fn bad_base_url_is_a_url_error() {
    let cfg = Config::for_test("not a url", "t");
    assert!(matches!(Client::new(&cfg), Err(Error::Url(_))));
}

#[test]
fn default_headers_fill_the_header_map() {
    let hs = request_headers(&Config::for_test("http://127.0.0.1:9", "test-token")).unwrap();
    let m = header_map(&hs);
    assert_eq!(m.len(), 3);
    let auth = m.get("authorization").unwrap();
    assert_eq!(auth, "Bearer test-token");
    assert!(auth.is_sensitive());
    assert_eq!(m.get("accept").unwrap(), "application/json");
    assert!(!m.get("accept").unwrap().is_sensitive());
    assert!(m.get("user-agent").unwrap().to_str().unwrap().starts_with("stockbit-cli/"));
}

#[test]
fn refused_connection_is_a_transient_http_error() {
    let rt = tokio::runtime::Runtime::new().unwrap();
    let err = rt
        .block_on(async { reqwest::Client::new().get("http://127.0.0.1:9/").send().await })
        .expect_err("nothing listens on port 9");
    let (connect, request) = (err.is_connect(), err.is_request());
    let e = Error::from_reqwest(err);
    assert!(matches!(e, Error::Http { connect: c, request: r, .. } if c == connect && r == request));
    assert!(connect && request);
    assert!(e.is_transient());
}

#[test]
fn bad_url_is_a_non_transient_http_error() {
    let err = reqwest::Client::new().get("not a url").build().expect_err("bad url");
    let e = Error::from_reqwest(err);
    assert!(matches!(e, Error::Http { timeout: false, connect: false, request: false, .. }));
    assert!(!e.is_transient());
}

#[test]
fn error_texts() {
    assert_eq!(Error::MissingToken.text(), "missing bearer token: set STOCKBIT_BEARER_TOKEN or pass --token");
    assert_eq!(api_error(503, "down").text(), "Stockbit API returned status 503: down");
    assert_eq!(
        Error::InvalidDate { input: "2026-13-01".into() }.text(),
        "invalid date \"2026-13-01\": expected YYYY-MM-DD"
    );
    assert_eq!(Error::Url(url::ParseError::RelativeUrlWithoutBase).text(), "invalid URL: relative URL without a base");
    assert_eq!(Error::Config("x".into()).text(), "config error: x");
    assert_eq!(Error::Url(url::ParseError::EmptyHost).text(), "invalid URL: empty host");
    assert_eq!(
        Error::Url(url::ParseError::SetHostOnCannotBeABaseUrl).text(),
        "invalid URL: a cannot-be-a-base URL doesn’t have a host to set"
    );
}

#[test]
fn assemble_reports_a_failed_build() {
    let cfg = Config::for_test("http://127.0.0.1:9/api", "t");
    let err = reqwest::Client::new().get("not a url").build().expect_err("bad url");
    let msg = err.to_string();
    match Client::assemble(Err(err), &cfg) {
        Err(Error::Http { message, request: false, .. }) => assert_eq!(message, msg),
        other => panic!("unexpected {:?}", other.map(|c| c.base)),
    }
    let c = Client::assemble(Ok(reqwest::Client::new()), &cfg).unwrap();
    assert_eq!(c.base, "http://127.0.0.1:9/api/");
    assert!(matches!(
        Client::assemble(Ok(reqwest::Client::new()), &Config::for_test("nope", "t")),
        Err(Error::Url(_))
    ));
}

#[test]
fn forwards_query_string() {
    let c = test_client("http://127.0.0.1:9");
    let req = stockbit_cli::api::ApiRequest {
        path: "/q".into(),
        query: vec![("a".into(), "1".into()), ("b".into(), "two".into())],
    };
    assert_eq!(c.request_url(&req).unwrap(), "http://127.0.0.1:9/q?a=1&b=two");
}

#[test]
fn request_url_encodes_and_keeps_mount_point() {
    let c = test_client("http://127.0.0.1:9/api");
    let req = stockbit_cli::api::keystats::request("bbri", 10);
    assert_eq!(c.request_url(&req).unwrap(), "http://127.0.0.1:9/api/keystats/ratio/v1/BBRI?year_limit=10");
    let bare = stockbit_cli::api::info::request("BBRI");
    assert_eq!(c.request_url(&bare).unwrap(), "http://127.0.0.1:9/api/emitten/BBRI/info");
    let spaced = stockbit_cli::api::ApiRequest { path: "x".into(), query: vec![("k".into(), "a b&c".into())] };
    assert_eq!(c.request_url(&spaced).unwrap(), "http://127.0.0.1:9/api/x?k=a+b%26c");
}
