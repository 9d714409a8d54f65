//! Calendar conversions and the daily chart window and rows.

use stockbit_cli::error::Error;
use stockbit_cli::yahoo::daily::{query, rows, unix_to_ymd, ymd_to_unix, DEFAULT_RANGE};
use stockbit_cli::yahoo::jk_symbol;

fn ymd_from_days(days: i64) -> String {
    unix_to_ymd(days * 86_400, 0)
}

#[test]
fn ymd_unix_roundtrip_epoch() {
    assert_eq!(ymd_to_unix("1970-01-01"), 0);
    assert_eq!(unix_to_ymd(0, 0), "1970-01-01");
}

#[test]
fn known_dates_convert() {
    assert_eq!(ymd_to_unix("2021-01-01"), 1_609_459_200);
    assert_eq!(unix_to_ymd(1_609_459_200, 0), "2021-01-01");
}

#[test]
fn gmtoffset_shifts_to_local_day() {
    let ts = 1_609_459_200 + 18 * 3600;
    assert_eq!(unix_to_ymd(ts, 7 * 3600), "2021-01-02");
    assert_eq!(unix_to_ymd(ts, 0), "2021-01-01");
}

#[test]
fn leap_day_roundtrips() {
    assert_eq!(unix_to_ymd(ymd_to_unix("2024-02-29"), 0), "2024-02-29");
}

#[test]
fn ymd_conversion_known_dates() {
    assert_eq!(ymd_from_days(0), "1970-01-01");
    assert_eq!(ymd_from_days(20454), "2026-01-01");
    assert_eq!(ymd_from_days(20455), "2026-01-02");
    assert_eq!(ymd_from_days(11323), "2001-01-01");
}

#[test]
fn negative_and_far_dates_render() {
    assert_eq!(unix_to_ymd(-1, 0), "1969-12-31");
    assert_eq!(ymd_to_unix("0000-03-01"), -62_162_035_200);
    assert_eq!(unix_to_ymd(-62_162_035_200, 0), "0000-03-01");
    assert_eq!(unix_to_ymd(-62_162_035_201, 0), "0000-02-29");
    assert_eq!(unix_to_ymd(-62_167_219_201, 0), "-001-12-31");
    assert_eq!(ymd_to_unix("9999-12-31"), 253_402_214_400);
    assert_eq!(unix_to_ymd(253_402_300_800, 0), "10000-01-01");
}

#[test]
fn roundtrip_across_many_dates() {
    for s in ["1900-02-28", "1900-03-01", "2000-02-29", "2100-12-31", "1600-02-29", "0001-01-01"] {
        assert_eq!(unix_to_ymd(ymd_to_unix(s), 0), s);
    }
}

#[test]
fn daily_with_dates_sends_period_window() {
    let q = query(Some("2021-01-01"), Some("2021-01-31"), "1mo", 0).unwrap();
    let q: Vec<(&str, &str)> = q.iter().map(|(a, b)| (a.as_str(), b.as_str())).collect();
    assert_eq!(
        q,
        vec![
            ("interval", "1d"),
            ("events", "div,splits"),
            ("period1", "1609459200"),
            ("period2", "1612137600"),
        ]
    );
}

#[test]
fn daily_window_without_to_ends_now() {
    let q = query(Some("1969-12-31"), None, "1mo", 1_700_000_000).unwrap();
    assert_eq!(q[2], ("period1".to_string(), "-86400".to_string()));
    assert_eq!(q[3], ("period2".to_string(), "1700000000".to_string()));
}

#[test]
fn daily_without_from_uses_range() {
    let q = query(None, Some("2021-01-31"), DEFAULT_RANGE, 0).unwrap();
    assert_eq!(q[2], ("range".to_string(), "1mo".to_string()));
    assert_eq!(q.len(), 3);
}

#[test]
fn daily_rejects_bad_date_before_network() {
    let err = query(Some("2021-13-99"), None, "1mo", 0).unwrap_err();
    assert!(matches!(err, Error::InvalidDate { .. }));
}

#[test]
fn daily_transforms_chart_into_rows() {
    let ts = vec![Some(1_609_459_200_i64), Some(1_609_545_600_i64)];
    let r = rows(&ts, 25200);
    assert_eq!(jk_symbol("bbri"), "BBRI.JK");
    assert_eq!(r.len(), 2);
    assert_eq!(r[0].date, "2021-01-01");
    assert_eq!(r[1].date, "2021-01-02");
    assert_eq!(r[0].index, 0);
    assert_eq!(r[1].index, 1);
}

#[test]
fn rows_skip_non_integer_timestamps() {
    let ts = vec![None, Some(0_i64), None];
    let r = rows(&ts, 0);
    assert_eq!(r.len(), 1);
    assert_eq!(r[0].index, 1);
    assert_eq!(r[0].date, "1970-01-01");
}

#[test]
fn rows_come_sorted_by_date() {
    // 2021-01-03, 2021-01-01, (none), 2021-01-02 upstream.
    let ts = vec![Some(1_609_632_000_i64), Some(1_609_459_200_i64), None, Some(1_609_545_600_i64)];
    let r = rows(&ts, 0);
    let dates: Vec<&str> = r.iter().map(|x| x.date.as_str()).collect();
    assert_eq!(dates, vec!["2021-01-01", "2021-01-02", "2021-01-03"]);
    let idx: Vec<usize> = r.iter().map(|x| x.index).collect();
    assert_eq!(idx, vec![1, 3, 0]);
}

#[test]
fn same_day_rows_keep_upstream_order() {
    let ts = vec![Some(1_609_459_200_i64 + 3_600), Some(1_609_459_200_i64), Some(0_i64)];
    let r = rows(&ts, 0);
    let idx: Vec<usize> = r.iter().map(|x| x.index).collect();
    assert_eq!(idx, vec![2, 0, 1]);
    assert_eq!(r[1].date, "2021-01-01");
    assert_eq!(r[2].date, "2021-01-01");
}

#[test]
fn date_text_converts_back_to_midnight() {
    for t in [0_i64, 1, 86_399, 86_400, 1_609_459_200 + 45_296, -1, -86_401, -62_167_219_200, 253_402_300_799] {
        assert_eq!(ymd_to_unix(&unix_to_ymd(t, 0)), t - t.rem_euclid(86_400));
    }
}
