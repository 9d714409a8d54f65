//! IDX client: headers, trading-summary requests and challenge detection.

use stockbit_cli::error::Error;
use stockbit_cli::http::{header_map, HeaderName};
use stockbit_cli::idx::{self, failure, is_json_answer, remove_dashes, IdxClient};

fn client() -> IdxClient {
    IdxClient::with_base("http://127.0.0.1:9", "cf_clearance=abc; other=1", idx::DEFAULT_USER_AGENT)
        .expect("idx client builds")
}

#[test]
fn stock_summary_formats_date_and_sends_cookie() {
    let hs = idx::request_headers("cf_clearance=abc; other=1", idx::DEFAULT_USER_AGENT).unwrap();
    assert_eq!(hs[3].name, HeaderName::Cookie);
    assert_eq!(hs[3].value, "cf_clearance=abc; other=1");
    let r = idx::stock_summary::request(&client(), Some("2026-06-19")).unwrap();
    assert_eq!(r.url, "http://127.0.0.1:9/primary/TradingSummary/GetStockSummary");
    let q: Vec<(&str, &str)> = r.query.iter().map(|(a, b)| (a.as_str(), b.as_str())).collect();
    assert_eq!(q, vec![("length", "9999"), ("start", "0"), ("date", "20260619")]);
}

#[test]
fn stock_summary_without_date_omits_param() {
    let r = idx::stock_summary::request(&client(), None).unwrap();
    assert_eq!(r.query.len(), 2);
}

#[test]
fn broker_summary_hits_its_endpoint() {
    let r = idx::broker_summary::request(&client(), None).unwrap();
    assert_eq!(r.url, "http://127.0.0.1:9/primary/TradingSummary/GetBrokerSummary");
}

#[test]
fn bad_date_fails_before_network() {
    let err = idx::stock_summary::request(&client(), Some("2026-13-40")).unwrap_err();
    assert!(matches!(err, Error::InvalidDate { .. }));
}

#[test]
fn cloudflare_403_maps_to_challenge() {
    let html = idx::html_type(Some("text/html"));
    assert!(matches!(
        failure(403, html, "<!DOCTYPE html><html>Just a moment...</html>"),
        Error::IdxChallenge
    ));
}

#[test]
fn html_200_interstitial_maps_to_challenge() {
    assert!(!is_json_answer(true, Some("text/html; charset=utf-8")));
    assert!(matches!(failure(200, true, "<html>challenge-platform</html>"), Error::IdxChallenge));
}

#[test]
fn non_challenge_4xx_maps_to_idx_error() {
    assert!(!is_json_answer(false, Some("application/json")));
    let e = failure(400, false, "{\"message\":\"bad request\"}");
    assert!(matches!(e, Error::Idx { status: 400, ref body } if body == "{\"message\":\"bad request\"}"));
}

#[test]
fn invalid_cookie_is_rejected() {
    let err = IdxClient::with_base("http://127.0.0.1:9", "bad\ncookie", idx::DEFAULT_USER_AGENT)
        .err()
        .expect("invalid cookie rejected");
    assert!(matches!(err, Error::MissingIdxCookie));
}

#[test]
fn dashes_are_removed() {
    assert_eq!(remove_dashes("2026-06-19"), "20260619");
    assert_eq!(remove_dashes("--"), "");
}

#[test]
fn idx_cookie_header_is_sensitive() {
    let hs = idx::request_headers("cf_clearance=abc", "UA/1.0").unwrap();
    let m = header_map(&hs);
    assert_eq!(m.len(), 4);
    assert_eq!(m.get("cookie").unwrap(), "cf_clearance=abc");
    assert!(m.get("cookie").unwrap().is_sensitive());
    assert_eq!(m.get("user-agent").unwrap(), "UA/1.0");
    assert_eq!(m.get("referer").unwrap(), "https://www.idx.co.id/");
}

#[test]
fn trading_summary_url_carries_the_query() {
    let r = client().trading_summary_request("GetStockSummary", Some("2026-06-19")).unwrap();
    assert_eq!(
        r.full_url().unwrap(),
        "http://127.0.0.1:9/primary/TradingSummary/GetStockSummary?length=9999&start=0&date=20260619"
    );
}

#[test]
fn idx_assemble_parses_the_base() {
    let c = IdxClient::assemble(Ok(reqwest::Client::new()), "http://127.0.0.1:9/x").unwrap();
    assert_eq!(c.base, "http://127.0.0.1:9/x/");
    assert!(matches!(IdxClient::assemble(Ok(reqwest::Client::new()), "nope"), Err(Error::Url(_))));
}
