//! `GET /order-trade/broker/distribution?symbol=...&date=...`

use vstd::prelude::*;

use crate::api::{
    normalize_symbol, normalized_symbol, outcome_is, query_pair, query_view, validate_date,
    ApiRequest,
};
use crate::calendar::is_valid_date_text;
use crate::error::Error;
use crate::text::owned;

verus! {

/// The broker-distribution request: `/order-trade/broker/distribution` with
/// the normalized symbol and the date; a date that is not real is rejected.
pub open spec fn request_spec(symbol: Seq<char>, date: Seq<char>) -> Result<
    (Seq<char>, Seq<(Seq<char>, Seq<char>)>),
    Seq<char>,
> {
    if is_valid_date_text(date) {
        Ok(
            (
                "/order-trade/broker/distribution"@,
                seq![("symbol"@, normalized_symbol(symbol)), ("date"@, date)],
            ),
        )
    } else {
        Err(date)
    }
}

/// The request for the broker distribution of `symbol` on `date`; the date
/// is validated before anything else.
pub fn request(symbol: &str, date: &str) -> (res: Result<ApiRequest, Error>)
    ensures
        outcome_is(res, request_spec(symbol@, date@)),
{
    let sym = normalize_symbol(symbol);
    let date = validate_date(date)?;
    let mut query: Vec<(String, String)> = Vec::new();
    query.push(query_pair("symbol", sym.as_str()));
    query.push(query_pair("date", date));
    assert(query_view(query@) =~= seq![("symbol"@, sym@), ("date"@, date@)]);
    Ok(ApiRequest { path: owned("/order-trade/broker/distribution"), query })
}

} // verus!
