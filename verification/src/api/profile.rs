//! `GET /emitten/{symbol}/profile` — long-form company profile.

use vstd::prelude::*;

use crate::api::{bare_request, normalized_symbol, query_view, request_view, symbol_path, ApiRequest};

verus! {

/// The request for the profile of `symbol`: `/emitten/{SYMBOL}/profile`, no query.
pub open spec fn request_spec(symbol: Seq<char>) -> (Seq<char>, Seq<(Seq<char>, Seq<char>)>) {
    ("/emitten/"@ + normalized_symbol(symbol) + "/profile"@, Seq::empty())
}

/// The request for the profile of `symbol`.
pub fn request(symbol: &str) -> (res: ApiRequest)
    ensures
        request_view(res) == request_spec(symbol@),
{
    let r = bare_request(symbol_path("/emitten/", symbol, "/profile"));
    assert(query_view(r.query@) =~= Seq::empty());
    r
}

} // verus!
