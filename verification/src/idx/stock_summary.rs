//! IDX daily stock summary (price, volume, foreign flow) — `GetStockSummary`.

use vstd::prelude::*;

use crate::api::{query_view, validate_date};
use crate::calendar::is_valid_date_text;
use crate::client::strip_leading_slashes;
use crate::error::Error;
use crate::http::{url_join, PreparedRequest};
use crate::idx::{without_dashes, IdxClient};

verus! {

/// The stock-summary request for `date` (YYYY-MM-DD; latest trading day if
/// `None`); a malformed date fails before anything is built.
pub fn request(client: &IdxClient, date: Option<&str>) -> (res: Result<PreparedRequest, Error>)
    ensures
        date matches Some(d) && !is_valid_date_text(d@) ==> (res matches Err(
            Error::InvalidDate { input },
        ) && input@ == date->0@),
        (date matches Some(d) ==> is_valid_date_text(d@)) ==> {
            &&& res is Ok <==> url_join(
                client.base@,
                strip_leading_slashes("/primary/TradingSummary/GetStockSummary"@),
            ) is Some
            &&& res matches Ok(r) ==> url_join(
                client.base@,
                strip_leading_slashes("/primary/TradingSummary/GetStockSummary"@),
            ) == Some(r.url@)
            &&& res matches Ok(r) ==> query_view(r.query@) == seq![
                ("length"@, "9999"@),
                ("start"@, "0"@),
            ] + match date {
                Some(d) => seq![("date"@, without_dashes(d@))],
                None => Seq::empty(),
            }
        },
{
    let date = match date {
        Some(d) => Some(validate_date(d)?),
        None => None,
    };
    let r = client.trading_summary_request("GetStockSummary", date);
    proof {
        let whole = "/primary/TradingSummary/GetStockSummary"@;
        assert("/primary/TradingSummary/"@ + "GetStockSummary"@ =~= whole) by {
            reveal_strlit("/primary/TradingSummary/");
            reveal_strlit("GetStockSummary");
            reveal_strlit("/primary/TradingSummary/GetStockSummary");
        }
        assert(strip_leading_slashes("/primary/TradingSummary/"@ + "GetStockSummary"@) == strip_leading_slashes(whole));
    }
    r
}

} // verus!
