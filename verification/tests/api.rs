//! Endpoint helpers: symbol normalization, date validation, year-limit
//! snapping and the exact requests each endpoint is sent.

use stockbit_cli::api;
use stockbit_cli::api::keystats::snap_year_limit;
use stockbit_cli::api::market_detectors::Params;
use stockbit_cli::error::Error;

fn pairs(q: &[(String, String)]) -> Vec<(&str, &str)> {
    q.iter().map(|(a, b)| (a.as_str(), b.as_str())).collect()
}

#[test]
fn mod_normalize_symbol_uppercases_and_trims() {
    assert_eq!(api::normalize_symbol(" bbri "), "BBRI");
    assert_eq!(api::normalize_symbol("BbRi"), "BBRI");
}

#[test]
fn mod_validate_date_accepts_valid() {
    assert!(api::validate_date("2026-01-02").is_ok());
    assert!(api::validate_date("2024-02-29").is_ok());
    assert!(api::validate_date("2000-02-29").is_ok());
    assert!(api::validate_date("2026-12-31").is_ok());
}

#[test]
fn mod_validate_date_rejects_shape_violations() {
    for bad in ["2026-1-02", "2026/01/02", "abcdefghij", "", "2026-01-2"] {
        assert!(api::validate_date(bad).is_err(), "should reject shape {bad:?}");
    }
}

#[test]
fn mod_validate_date_rejects_impossible_calendar_dates() {
    for bad in [
        "2026-00-15",
        "2026-13-15",
        "2026-01-00",
        "2026-01-32",
        "2026-02-30",
        "2025-02-29",
        "2100-02-29",
        "2026-04-31",
    ] {
        assert!(api::validate_date(bad).is_err(), "should reject calendar {bad:?}");
    }
}

#[test]
fn api_normalize_symbol_uppercases_and_trims() {
    assert_eq!(api::normalize_symbol(" bbri "), "BBRI");
    assert_eq!(api::normalize_symbol("BbRi"), "BBRI");
}

#[test]
fn api_validate_date_accepts_valid() {
    assert!(api::validate_date("2026-01-02").is_ok());
    assert!(api::validate_date("2024-02-29").is_ok());
    assert!(api::validate_date("2000-02-29").is_ok());
    assert!(api::validate_date("2026-12-31").is_ok());
}

#[test]
fn api_validate_date_rejects_shape_violations() {
    for bad in ["2026-1-02", "2026/01/02", "abcdefghij", "", "2026-01-2"] {
        assert!(api::validate_date(bad).is_err(), "should reject shape {bad:?}");
    }
}

#[test]
fn api_validate_date_rejects_impossible_calendar_dates() {
    for bad in [
        "2026-00-15",
        "2026-13-15",
        "2026-01-00",
        "2026-01-32",
        "2026-02-30",
        "2025-02-29",
        "2100-02-29",
        "2026-04-31",
    ] {
        assert!(api::validate_date(bad).is_err(), "should reject calendar {bad:?}");
    }
}

#[test]
fn snap_year_limit_rounds_up_to_allowed() {
    assert_eq!(snap_year_limit(0), 0);
    assert_eq!(snap_year_limit(1), 3);
    assert_eq!(snap_year_limit(3), 3);
    assert_eq!(snap_year_limit(5), 10);
    assert_eq!(snap_year_limit(10), 10);
    assert_eq!(snap_year_limit(99), 10);
}

#[test]
fn keystats_snap_year_limit_rounds_up_to_allowed() {
    assert_eq!(snap_year_limit(0), 0);
    assert_eq!(snap_year_limit(1), 3);
    assert_eq!(snap_year_limit(3), 3);
    assert_eq!(snap_year_limit(5), 10);
    assert_eq!(snap_year_limit(10), 10);
    assert_eq!(snap_year_limit(99), 10);
}

#[test]
fn keystats_hits_correct_path_and_query() {
    let r = api::keystats::request("bbri", 10);
    assert_eq!(r.path, "/keystats/ratio/v1/BBRI");
    assert_eq!(pairs(&r.query), vec![("year_limit", "10")]);
}

#[test]
fn hits_correct_path_and_query() {
    let r = api::keystats::request("bbri", 10);
    assert_eq!(r.path, "/keystats/ratio/v1/BBRI");
    assert_eq!(pairs(&r.query), vec![("year_limit", "10")]);
}

#[test]
fn keystats_request_snaps_the_year_limit() {
    let r = api::keystats::request("bbri", 5);
    assert_eq!(pairs(&r.query), vec![("year_limit", "10")]);
    let r = api::keystats::request("bbri", 1);
    assert_eq!(pairs(&r.query), vec![("year_limit", "3")]);
}

#[test]
fn info_hits_correct_path() {
    let r = api::info::request("BBRI");
    assert_eq!(r.path, "/emitten/BBRI/info");
    assert!(r.query.is_empty());
}

#[test]
fn profile_hits_correct_path() {
    let r = api::profile::request("BBCA");
    assert_eq!(r.path, "/emitten/BBCA/profile");
    assert!(r.query.is_empty());
}

#[test]
fn emitten_merges_info_and_profile_responses() {
    let (i, p) = api::emitten::requests("BBRI");
    assert_eq!(i.path, "/emitten/BBRI/info");
    assert_eq!(p.path, "/emitten/BBRI/profile");
    assert!(i.query.is_empty() && p.query.is_empty());
}

#[test]
fn orderbook_hits_correct_path() {
    let r = api::orderbook::request("BBRI");
    assert_eq!(r.path, "/company-price-feed/v2/orderbook/companies/BBRI");
    assert!(r.query.is_empty());
}

#[test]
fn market_detectors_omits_date_params_when_none() {
    let r = api::market_detectors::request("BBRI", &Params::default()).unwrap();
    assert_eq!(r.path, "/marketdetectors/BBRI");
    assert_eq!(
        pairs(&r.query),
        vec![
            ("transaction_type", "TRANSACTION_TYPE_NET"),
            ("market_board", "MARKET_BOARD_REGULER"),
            ("investor_type", "INVESTOR_TYPE_ALL"),
            ("limit", "100"),
        ]
    );
}

#[test]
fn market_detectors_passes_from_and_to_when_set() {
    let params = Params {
        from: Some("2026-01-02"),
        to: Some("2026-01-02"),
        ..Params::default()
    };
    let r = api::market_detectors::request("BBCA", &params).unwrap();
    assert_eq!(r.path, "/marketdetectors/BBCA");
    let q = pairs(&r.query);
    assert_eq!(q.len(), 6);
    assert_eq!(q[4], ("from", "2026-01-02"));
    assert_eq!(q[5], ("to", "2026-01-02"));
}

#[test]
fn market_detectors_from_only_or_to_only_is_allowed() {
    let params = Params { from: Some("2026-01-02"), to: None, ..Params::default() };
    let r = api::market_detectors::request("BBRI", &params).unwrap();
    let q = pairs(&r.query);
    assert_eq!(q.len(), 5);
    assert_eq!(q[4], ("from", "2026-01-02"));
    let params = Params { from: None, to: Some("2026-01-02"), ..Params::default() };
    let q2 = api::market_detectors::request("BBRI", &params).unwrap().query;
    assert_eq!(pairs(&q2)[4], ("to", "2026-01-02"));
}

#[test]
fn market_detectors_rejects_invalid_from_date_locally() {
    let params = Params { from: Some("not-a-date"), ..Params::default() };
    let err = api::market_detectors::request("BBCA", &params).unwrap_err();
    assert!(matches!(err, Error::InvalidDate { .. }));
}

#[test]
fn market_detectors_rejects_invalid_to_date_locally() {
    let params = Params { to: Some("2026-13-99"), ..Params::default() };
    let err = api::market_detectors::request("BBCA", &params).unwrap_err();
    assert!(matches!(err, Error::InvalidDate { ref input } if input == "2026-13-99"));
}

#[test]
fn broker_distribution_rejects_bad_date_locally() {
    let err = api::broker_distribution::request("BBRI", "bad").unwrap_err();
    assert!(matches!(err, Error::InvalidDate { .. }));
}

#[test]
fn broker_distribution_hits_correct_path_with_query() {
    let r = api::broker_distribution::request("BBRI", "2026-01-02").unwrap();
    assert_eq!(r.path, "/order-trade/broker/distribution");
    assert_eq!(pairs(&r.query), vec![("symbol", "BBRI"), ("date", "2026-01-02")]);
}

#[test]
fn rejects_bad_date_locally() {
    let err = api::trade_book::request(
        "BBRI",
        "2026-13-99",
        api::trade_book::DEFAULT_GROUP_BY,
        api::trade_book::DEFAULT_TIME_INTERVAL,
    )
    .unwrap_err();
    assert!(matches!(err, Error::InvalidDate { .. }));
}

#[test]
fn trade_book_rejects_bad_date_locally() {
    let err = api::trade_book::request(
        "BBRI",
        "2026-13-99",
        api::trade_book::DEFAULT_GROUP_BY,
        api::trade_book::DEFAULT_TIME_INTERVAL,
    )
    .unwrap_err();
    assert!(matches!(err, Error::InvalidDate { .. }));
}

#[test]
fn trade_book_hits_correct_path_with_all_params() {
    let r = api::trade_book::request(
        "BBRI",
        "2026-01-02",
        api::trade_book::DEFAULT_GROUP_BY,
        api::trade_book::DEFAULT_TIME_INTERVAL,
    )
    .unwrap();
    assert_eq!(r.path, "/order-trade/trade-book");
    assert_eq!(
        pairs(&r.query),
        vec![
            ("symbol", "BBRI"),
            ("date", "2026-01-02"),
            ("group_by", "GROUP_BY_TIME"),
            ("time_interval", "10m"),
        ]
    );
}

#[test]
fn hits_correct_path_with_all_params() {
    let r = api::trade_book::request(
        "BBRI",
        "2026-01-02",
        api::trade_book::DEFAULT_GROUP_BY,
        api::trade_book::DEFAULT_TIME_INTERVAL,
    )
    .unwrap();
    assert_eq!(r.path, "/order-trade/trade-book");
    assert_eq!(
        pairs(&r.query),
        vec![
            ("symbol", "BBRI"),
            ("date", "2026-01-02"),
            ("group_by", "GROUP_BY_TIME"),
            ("time_interval", "10m"),
        ]
    );
}

#[test]
fn returns_some_on_200() {
    let v = api::shareholders::absent_on_not_found(Ok::<u8, Error>(7)).unwrap();
    assert_eq!(v, Some(7));
}

#[test]
fn returns_none_on_404() {
    let outcome: Result<u8, Error> = Err(Error::Api { status: 404, body: "not found".into() });
    assert!(api::shareholders::absent_on_not_found(outcome).unwrap().is_none());
}

#[test]
fn propagates_other_4xx_as_error() {
    let outcome: Result<u8, Error> = Err(Error::Api { status: 403, body: "forbidden".into() });
    let err = api::shareholders::absent_on_not_found(outcome).unwrap_err();
    assert!(matches!(err, Error::Api { status: 403, .. }));
}

#[test]
fn shareholders_returns_some_on_200() {
    let v = api::shareholders::absent_on_not_found(Ok::<u8, Error>(1)).unwrap();
    assert!(v.is_some());
    assert_eq!(
        api::shareholders::request("BBRI").path,
        "/insider/shareholding/composition/companies/BBRI"
    );
}

#[test]
fn shareholders_returns_none_on_404() {
    let outcome: Result<u8, Error> = Err(Error::Api { status: 404, body: "not found".into() });
    assert!(api::shareholders::absent_on_not_found(outcome).unwrap().is_none());
}

#[test]
fn shareholders_propagates_other_4xx_as_error() {
    let outcome: Result<u8, Error> = Err(Error::Api { status: 403, body: "forbidden".into() });
    let err = api::shareholders::absent_on_not_found(outcome).unwrap_err();
    assert!(matches!(err, Error::Api { status: 403, .. }));
}

#[test]
fn days_in_month_follows_leap_rules() {
    assert_eq!(api::days_in_month(2024, 2), 29);
    assert_eq!(api::days_in_month(2100, 2), 28);
    assert_eq!(api::days_in_month(2000, 2), 29);
    assert_eq!(api::days_in_month(2026, 4), 30);
    assert_eq!(api::days_in_month(2026, 12), 31);
    assert_eq!(api::days_in_month(2026, 13), 0);
}
