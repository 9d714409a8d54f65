//! IDX daily broker summary (per-broker buy/sell) — `GetBrokerSummary`.

use vstd::prelude::*;

use crate::api::{query_view, validate_date};
use crate::calendar::is_valid_date_text;
use crate::client::strip_leading_slashes;
use crate::error::Error;
use crate::http::{url_join, PreparedRequest};
use crate::idx::{without_dashes, IdxClient};

verus! {

/// The broker-summary request for `date` (YYYY-MM-DD; latest trading day if
/// `None`); a malformed date fails before anything is built.
pub fn request(client: &IdxClient, date: Option<&str>) -> (res: Result<PreparedRequest, Error>)
    ensures
        date matches Some(d) && !is_valid_date_text(d@) ==> (res matches Err(
            Error::InvalidDate { input },
        ) && input@ == date->0@),
        (date matches Some(d) ==> is_valid_date_text(d@)) ==> {
            &&& res is Ok <==> url_join(
                client.base@,
                strip_leading_slashes("/primary/TradingSummary/GetBrokerSummary"@),
            ) is Some
            &&& res matches Ok(r) ==> url_join(
                client.base@,
                strip_leading_slashes("/primary/TradingSummary/GetBrokerSummary"@),
            ) == Some(r.url@)
            &&& res matches Ok(r) ==> query_view(r.query@) == seq![
                ("length"@, "9999"@),
                ("start"@, "0"@),
            ] + match date {
                Some(d) => seq![("date"@, without_dashes(d@))],
                None => Seq::empty(),
            }
        },
{
    let date = match date {
        Some(d) => Some(validate_date(d)?),
        None => None,
    };
    let r = client.trading_summary_request("GetBrokerSummary", date);
    proof {
        let whole = "/primary/TradingSummary/GetBrokerSummary"@;
        assert("/primary/TradingSummary/"@ + "GetBrokerSummary"@ =~= whole) by {
            reveal_strlit("/primary/TradingSummary/");
            reveal_strlit("GetBrokerSummary");
            reveal_strlit("/primary/TradingSummary/GetBrokerSummary");
        }
        assert(strip_leading_slashes("/primary/TradingSummary/"@ + "GetBrokerSummary"@) == strip_leading_slashes(whole));
    }
    r
}

} // verus!
