//! `GET /company-price-feed/v2/orderbook/companies/{symbol}` — live orderbook snapshot.

use vstd::prelude::*;

use crate::api::{bare_request, normalized_symbol, query_view, request_view, symbol_path, ApiRequest};

verus! {

/// The request for the orderbook of `symbol`: `/company-price-feed/v2/orderbook/companies/{SYMBOL}`, no query.
pub open spec fn request_spec(symbol: Seq<char>) -> (Seq<char>, Seq<(Seq<char>, Seq<char>)>) {
    ("/company-price-feed/v2/orderbook/companies/"@ + normalized_symbol(symbol) + ""@, Seq::empty())
}

/// The request for the orderbook of `symbol`.
pub fn request(symbol: &str) -> (res: ApiRequest)
    ensures
        request_view(res) == request_spec(symbol@),
{
    let r = bare_request(symbol_path("/company-price-feed/v2/orderbook/companies/", symbol, ""));
    assert(query_view(r.query@) =~= Seq::empty());
    r
}

} // verus!
