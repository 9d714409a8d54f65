//! Command routing and the dispatcher's small decisions.

use stockbit_cli::cli::{
    consults_env_filter, default_log_level, unset_outcome, Command, ConfigAction, Service,
};
use stockbit_cli::cli::StockbitCall;
use stockbit_cli::error::Error;
use stockbit_cli::output::Format;

#[test]
fn yahoo_and_idx_commands_need_no_token() {
    let yf = Command::YfQuote { symbol: "BBRI".into() };
    assert!(yf.is_yahoo() && !yf.is_idx());
    assert_eq!(yf.service(), Service::Yahoo);
    let idx = Command::IdxStockSummary { date: None };
    assert!(idx.is_idx() && !idx.is_yahoo());
    assert_eq!(idx.service(), Service::Idx);
    let cfg = Command::Config { action: ConfigAction::Show };
    assert_eq!(cfg.service(), Service::LocalConfig);
    let ks = Command::Keystats { symbol: "BBRI".into(), year_limit: 10 };
    assert_eq!(ks.service(), Service::Stockbit);
}

#[test]
fn verbosity_maps_to_log_level() {
    assert_eq!(default_log_level(0), "warn");
    assert_eq!(default_log_level(1), "info");
    assert_eq!(default_log_level(2), "debug");
    assert_eq!(default_log_level(7), "trace");
    assert!(consults_env_filter(0));
    assert!(!consults_env_filter(1));
}

#[test]
fn unset_reports_outcome() {
    assert_eq!(unset_outcome(true), "ok");
    assert_eq!(unset_outcome(false), "no-op: key not set");
}

#[test]
fn pretty_flag_selects_format() {
    assert_eq!(Format::from_pretty_flag(true), Format::Pretty);
    assert_eq!(Format::from_pretty_flag(false), Format::Compact);
}

#[test]
fn stockbit_commands_plan_their_requests() {
    let c = Command::Emitten { symbol: "bbri".into() };
    match c.stockbit_call().unwrap() {
        StockbitCall::InfoAndProfile(i, p) => {
            assert_eq!(i.path, "/emitten/BBRI/info");
            assert_eq!(p.path, "/emitten/BBRI/profile");
        }
        other => panic!("unexpected {other:?}"),
    }
    let c = Command::Shareholders { symbol: "XXXX".into() };
    assert!(matches!(c.stockbit_call().unwrap(), StockbitCall::Composition(_)));
    let c = Command::TradeBook {
        symbol: "BBRI".into(),
        date: "2026-13-99".into(),
        group_by: "GROUP_BY_TIME".into(),
        time_interval: "10m".into(),
    };
    assert!(matches!(c.stockbit_call(), Err(Error::InvalidDate { .. })));
    let c = Command::MarketDetectors {
        symbol: "BBRI".into(),
        from: None,
        to: Some("2026-01-02".into()),
        limit: 5,
        transaction_type: "T".into(),
        market_board: "B".into(),
        investor_type: "I".into(),
    };
    match c.stockbit_call().unwrap() {
        StockbitCall::Single(r) => {
            assert_eq!(r.path, "/marketdetectors/BBRI");
            assert_eq!(r.query[3], ("limit".to_string(), "5".to_string()));
            assert_eq!(r.query[4], ("to".to_string(), "2026-01-02".to_string()));
        }
        other => panic!("unexpected {other:?}"),
    }
}
