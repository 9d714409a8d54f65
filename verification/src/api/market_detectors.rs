//! `GET /marketdetectors/{symbol}` — foreign-flow / accumulation indicator endpoint.

use vstd::prelude::*;

use crate::api::{
    normalized_symbol, outcome_is, query_pair, query_view, symbol_path, validate_date, ApiRequest,
};
use crate::calendar::{dec_digits, decimal_string, is_valid_date_text};
use crate::error::Error;

verus! {

/// Query parameters of the market-detectors endpoint.
#[derive(Debug, Clone)]
pub struct Params<'a> {
    pub transaction_type: &'a str,
    pub market_board: &'a str,
    pub investor_type: &'a str,
    pub limit: u32,
    pub from: Option<&'a str>,
    pub to: Option<&'a str>,
}

impl<'a> Default for Params<'a> {
    fn default() -> (res: Self)
        ensures
            res.transaction_type@ == "TRANSACTION_TYPE_NET"@,
            res.market_board@ == "MARKET_BOARD_REGULER"@,
            res.investor_type@ == "INVESTOR_TYPE_ALL"@,
            res.limit == 100,
            res.from is None,
            res.to is None,
    {
        Params {
            transaction_type: "TRANSACTION_TYPE_NET",
            market_board: "MARKET_BOARD_REGULER",
            investor_type: "INVESTOR_TYPE_ALL",
            limit: 100,
            from: None,
            to: None,
        }
    }
}

/// The optional `(name, date)` pair of a date bound.
pub open spec fn optional_pair(name: Seq<char>, d: Option<Seq<char>>) -> Seq<(Seq<char>, Seq<char>)> {
    match d {
        Some(v) => seq![(name, v)],
        None => Seq::empty(),
    }
}

/// Whether an optional date bound is absent or a real date.
pub open spec fn bound_ok(d: Option<Seq<char>>) -> bool {
    match d {
        Some(v) => is_valid_date_text(v),
        None => true,
    }
}

/// An optional string as an optional character sequence.
pub open spec fn opt_view(d: Option<&str>) -> Option<Seq<char>> {
    match d {
        Some(v) => Some(v@),
        None => None,
    }
}

/// The market-detectors request: `/marketdetectors/{SYMBOL}` with the
/// type, board, investor type and limit, then `from` and `to` when given;
/// a bound that is not a real date is rejected, `from` first.
pub open spec fn request_spec(
    symbol: Seq<char>,
    transaction_type: Seq<char>,
    market_board: Seq<char>,
    investor_type: Seq<char>,
    limit: u32,
    from: Option<Seq<char>>,
    to: Option<Seq<char>>,
) -> Result<(Seq<char>, Seq<(Seq<char>, Seq<char>)>), Seq<char>> {
    if !bound_ok(from) {
        Err(from->0)
    } else if !bound_ok(to) {
        Err(to->0)
    } else {
        Ok(
            (
                "/marketdetectors/"@ + normalized_symbol(symbol) + ""@,
                seq![
                    ("transaction_type"@, transaction_type),
                    ("market_board"@, market_board),
                    ("investor_type"@, investor_type),
                    ("limit"@, dec_digits(limit as nat)),
                ] + optional_pair("from"@, from) + optional_pair("to"@, to),
            ),
        )
    }
}

/// The market-detectors request for `symbol`. Both date bounds are checked
/// before anything is sent, `from` first.
pub fn request(symbol: &str, params: &Params) -> (res: Result<ApiRequest, Error>)
    ensures
        outcome_is(
            res,
            request_spec(
                symbol@,
                params.transaction_type@,
                params.market_board@,
                params.investor_type@,
                params.limit,
                opt_view(params.from),
                opt_view(params.to),
            ),
        ),
{
    let path = symbol_path("/marketdetectors/", symbol, "");
    let from = match params.from {
        Some(f) => Some(validate_date(f)?),
        None => None,
    };
    let to = match params.to {
        Some(t) => Some(validate_date(t)?),
        None => None,
    };
    let limit = decimal_string(params.limit as u64);
    let mut q: Vec<(String, String)> = Vec::new();
    q.push(query_pair("transaction_type", params.transaction_type));
    q.push(query_pair("market_board", params.market_board));
    q.push(query_pair("investor_type", params.investor_type));
    q.push(query_pair("limit", limit.as_str()));
    let ghost base = query_view(q@);
    assert(base =~= seq![
        ("transaction_type"@, params.transaction_type@),
        ("market_board"@, params.market_board@),
        ("investor_type"@, params.investor_type@),
        ("limit"@, dec_digits(params.limit as nat)),
    ]);
    if let Some(f) = from {
        q.push(query_pair("from", f));
    }
    assert(query_view(q@) =~= base + optional_pair("from"@, opt_view(params.from)));
    let ghost mid = query_view(q@);
    if let Some(t) = to {
        q.push(query_pair("to", t));
    }
    assert(query_view(q@) =~= mid + optional_pair("to"@, opt_view(params.to)));
    Ok(ApiRequest { path, query: q })
}

} // verus!
