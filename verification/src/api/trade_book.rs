//! `GET /order-trade/trade-book?symbol=...&date=...&group_by=...&time_interval=...`

use vstd::prelude::*;

use crate::api::{
    normalize_symbol, normalized_symbol, outcome_is, query_pair, query_view, validate_date,
    ApiRequest,
};
use crate::calendar::is_valid_date_text;
use crate::error::Error;
use crate::text::owned;

verus! {

/// Grouping used when none is given.
pub const DEFAULT_GROUP_BY: &'static str = "GROUP_BY_TIME";

/// Time bucket used when none is given.
pub const DEFAULT_TIME_INTERVAL: &'static str = "10m";

/// The trade-book request: `/order-trade/trade-book` with the normalized
/// symbol, the date, the grouping and the time bucket; a date that is not
/// real is rejected.
pub open spec fn request_spec(
    symbol: Seq<char>,
    date: Seq<char>,
    group_by: Seq<char>,
    time_interval: Seq<char>,
) -> Result<(Seq<char>, Seq<(Seq<char>, Seq<char>)>), Seq<char>> {
    if is_valid_date_text(date) {
        Ok(
            (
                "/order-trade/trade-book"@,
                seq![
                    ("symbol"@, normalized_symbol(symbol)),
                    ("date"@, date),
                    ("group_by"@, group_by),
                    ("time_interval"@, time_interval),
                ],
            ),
        )
    } else {
        Err(date)
    }
}

/// The trade-book request for `symbol` on `date`; the date is validated
/// before anything else.
pub fn request(symbol: &str, date: &str, group_by: &str, time_interval: &str) -> (res: Result<
    ApiRequest,
    Error,
>)
    ensures
        outcome_is(res, request_spec(symbol@, date@, group_by@, time_interval@)),
{
    let sym = normalize_symbol(symbol);
    let date = validate_date(date)?;
    let mut query: Vec<(String, String)> = Vec::new();
    query.push(query_pair("symbol", sym.as_str()));
    query.push(query_pair("date", date));
    query.push(query_pair("group_by", group_by));
    query.push(query_pair("time_interval", time_interval));
    assert(query_view(query@) =~= seq![
        ("symbol"@, sym@),
        ("date"@, date@),
        ("group_by"@, group_by@),
        ("time_interval"@, time_interval@),
    ]);
    Ok(ApiRequest { path: owned("/order-trade/trade-book"), query })
}

} // verus!
