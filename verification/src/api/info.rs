//! `GET /emitten/{symbol}/info` — short company info.

use vstd::prelude::*;

use crate::api::{bare_request, normalized_symbol, query_view, request_view, symbol_path, ApiRequest};

verus! {

/// The request for the info of `symbol`: `/emitten/{SYMBOL}/info`, no query.
pub open spec fn request_spec(symbol: Seq<char>) -> (Seq<char>, Seq<(Seq<char>, Seq<char>)>) {
    ("/emitten/"@ + normalized_symbol(symbol) + "/info"@, Seq::empty())
}

/// The request for the info of `symbol`.
pub fn request(symbol: &str) -> (res: ApiRequest)
    ensures
        request_view(res) == request_spec(symbol@),
{
    let r = bare_request(symbol_path("/emitten/", symbol, "/info"));
    assert(query_view(r.query@) =~= Seq::empty());
    r
}

} // verus!
