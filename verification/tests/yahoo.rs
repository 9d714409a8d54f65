//! Yahoo client: symbol suffixing, endpoint URLs, crumb and error checks.

use stockbit_cli::error::Error;
use stockbit_cli::yahoo::{self, crumb_from_response, jk_symbol, reported_error, YahooClient};

fn client() -> YahooClient {
    YahooClient::for_test("http://127.0.0.1:9").expect("yahoo client builds").with_retry_base(1_000_000)
}

#[test]
fn jk_symbol_appends_suffix_and_uppercases() {
    assert_eq!(jk_symbol(" bbri "), "BBRI.JK");
    assert_eq!(jk_symbol("AADI"), "AADI.JK");
}

#[test]
fn jk_symbol_is_idempotent() {
    assert_eq!(jk_symbol("BBRI.JK"), "BBRI.JK");
    assert_eq!(jk_symbol("bbri.jk"), "BBRI.JK");
    assert_eq!(jk_symbol(&jk_symbol("tlkm")), "TLKM.JK");
}

#[test]
fn quote_returns_meta() {
    let c = client();
    let r = c.chart_request("bbri", yahoo::quote::query()).unwrap();
    assert_eq!(r.url, "http://127.0.0.1:9/v8/finance/chart/BBRI.JK");
    assert_eq!(r.query[1], ("range".to_string(), "1d".to_string()));
}

#[test]
fn summary_performs_crumb_then_returns_modules() {
    let c = client();
    assert_eq!(c.crumb_url().unwrap(), "http://127.0.0.1:9/v1/test/getcrumb");
    let crumb = crumb_from_response(true, "  crumb-xyz\n").unwrap();
    assert_eq!(crumb, "crumb-xyz");
    let r = c.quote_summary_request("bbri", yahoo::summary::MODULES, &crumb).unwrap();
    assert_eq!(r.url, "http://127.0.0.1:9/v10/finance/quoteSummary/BBRI.JK");
    assert_eq!(r.query[0].1, yahoo::summary::MODULES);
    assert_eq!(r.query[1], ("crumb".to_string(), "crumb-xyz".to_string()));
}

#[test]
fn analyst_performs_crumb_then_returns_modules() {
    let c = client();
    let r = c.quote_summary_request("bbri", yahoo::analyst::MODULES, "crumb-xyz").unwrap();
    assert!(r.query[0].1.contains("recommendationTrend"));
}

#[test]
fn crumb_failure_surfaces_as_crumb_error() {
    let err = crumb_from_response(true, "<!DOCTYPE html><html>nope</html>").unwrap_err();
    assert!(matches!(err, Error::Crumb));
    assert!(matches!(crumb_from_response(false, "abc"), Err(Error::Crumb)));
    assert!(matches!(crumb_from_response(true, "  \n"), Err(Error::Crumb)));
    assert!(matches!(crumb_from_response(true, "{\"x\":1}"), Err(Error::Crumb)));
}

#[test]
fn daily_surfaces_chart_error() {
    let err = reported_error(Some("No data found, symbol may be delisted")).unwrap_err();
    assert!(matches!(err, Error::Yahoo { status: 200, ref body } if body == "No data found, symbol may be delisted"));
    assert!(reported_error(None).is_ok());
}

#[test]
fn yahoo_status_error_truncates_body() {
    let long = "x".repeat(600);
    match yahoo::status_error(500, &long) {
        Error::Yahoo { status, body } => {
            assert_eq!(status, 500);
            assert_eq!(body.chars().count(), 501);
        }
        other => panic!("unexpected {other:?}"),
    }
}

#[test]
fn cookie_url_is_the_base() {
    assert_eq!(client().cookie_url(), "http://127.0.0.1:9/");
}

#[test]
fn yahoo_assemble_parses_every_base() {
    let c = YahooClient::assemble(Ok(reqwest::Client::new()), "http://a", "http://b/q", "http://c").unwrap();
    assert_eq!((c.chart_base.as_str(), c.query_base.as_str(), c.cookie_base.as_str()), ("http://a/", "http://b/q/", "http://c/"));
    assert!(matches!(
        YahooClient::assemble(Ok(reqwest::Client::new()), "http://a", "bad", "http://c"),
        Err(Error::Url(_))
    ));
}
