//! `GET /insider/shareholding/composition/companies/{symbol}` — shareholder
//! composition. Upstream answers 404 for tickers without one (ETFs,
//! suspended issues); that is an absent payload, not a failure.

use vstd::prelude::*;

use crate::api::{bare_request, normalized_symbol, query_view, request_view, symbol_path, ApiRequest};
use crate::error::Error;

verus! {

/// The `_note` of the output when a symbol has no composition (the payload's
/// `data` is then `null`).
pub const NO_COMPOSITION_NOTE: &'static str = "no shareholder composition available for symbol";

/// The request for the composition of `symbol`: `/insider/shareholding/composition/companies/{SYMBOL}`, no query.
pub open spec fn request_spec(symbol: Seq<char>) -> (Seq<char>, Seq<(Seq<char>, Seq<char>)>) {
    ("/insider/shareholding/composition/companies/"@ + normalized_symbol(symbol) + ""@, Seq::empty())
}

/// The request for the composition of `symbol`.
pub fn request(symbol: &str) -> (res: ApiRequest)
    ensures
        request_view(res) == request_spec(symbol@),
{
    let r = bare_request(symbol_path("/insider/shareholding/composition/companies/", symbol, ""));
    assert(query_view(r.query@) =~= Seq::empty());
    r
}

/// The outcome of the composition request: a payload is `Some`, an upstream
/// 404 is `None`, any other failure is returned.
pub fn absent_on_not_found<T>(outcome: Result<T, Error>) -> (res: Result<Option<T>, Error>)
    ensures
        match outcome {
            Ok(v) => res == Ok::<Option<T>, Error>(Some(v)),
            Err(e) => if e matches Error::Api { status, .. } && status == 404 {
                res == Ok::<Option<T>, Error>(None)
            } else {
                res == Err::<Option<T>, Error>(e)
            },
        },
{
    match outcome {
        Ok(v) => Ok(Some(v)),
        Err(Error::Api { status: 404, .. }) => Ok(None),
        Err(e) => Err(e),
    }
}

} // verus!
