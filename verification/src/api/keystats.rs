//! `GET /keystats/ratio/v1/{symbol}?year_limit=N`
//!
//! The upstream only accepts `year_limit ∈ {0, 3, 10}`; any other integer
//! comes back as `400 INVALID_PARAMETER`. The request snaps the caller's
//! value up to the closest allowed one, so `5` asks for 10 years.

use vstd::prelude::*;

use crate::api::{normalized_symbol, query_pair, query_view, request_view, symbol_path, ApiRequest};
use crate::calendar::{dec_digits, decimal_string};

verus! {

/// Years of history requested when none is given.
pub const DEFAULT_YEAR_LIMIT: u32 = 10;

/// The year limits the upstream accepts, ascending.
pub const ALLOWED_YEAR_LIMITS: [u32; 3] = [0, 3, 10];

/// The smallest allowed year limit at least `requested`, or 10 when none is.
pub open spec fn snapped_year_limit(requested: int) -> int {
    if requested <= 0 {
        0
    } else if requested <= 3 {
        3
    } else {
        10
    }
}

/// Snap an arbitrary `year_limit` to the nearest allowed upstream value (rounded up).
pub fn snap_year_limit(requested: u32) -> (res: u32)
    ensures
        res == snapped_year_limit(requested as int),
        res == 0 || res == 3 || res == 10,
        requested <= 10 ==> requested <= res,
        requested <= 0 ==> res <= 0,
        requested <= 3 ==> res <= 3,
        res <= 10,
{
    let allowed = ALLOWED_YEAR_LIMITS;
    assert(allowed@ == seq![0u32, 3u32, 10u32]);
    let mut i: usize = 0;
    while i < 3
        invariant
            allowed@ == seq![0u32, 3u32, 10u32],
            i <= 3,
            forall|j: int| 0 <= j < i ==> allowed@[j] < requested,
        decreases 3 - i,
    {
        if allowed[i] >= requested {
            return allowed[i];
        }
        i = i + 1;
    }
    10
}

/// Snapping rounds up to the nearest allowed value: the result is one of
/// 0, 3 and 10, never less than a request of at most 10, and no allowed
/// value lies at or above the request and below the result. Snapping twice
/// changes nothing.
pub proof fn lemma_snap_year_limit(requested: int)
    ensures
        snapped_year_limit(requested) == 0 || snapped_year_limit(requested) == 3
            || snapped_year_limit(requested) == 10,
        requested <= 10 ==> requested <= snapped_year_limit(requested),
        requested > 10 ==> snapped_year_limit(requested) == 10,
        requested <= 0 ==> snapped_year_limit(requested) <= 0,
        requested <= 3 ==> snapped_year_limit(requested) <= 3,
        snapped_year_limit(requested) <= 10,
        snapped_year_limit(snapped_year_limit(requested)) == snapped_year_limit(requested),
{
}

/// The key-statistics request: `/keystats/ratio/v1/{SYMBOL}` with the
/// snapped `year_limit`.
pub open spec fn request_spec(symbol: Seq<char>, year_limit: u32) -> (Seq<char>, Seq<(Seq<char>, Seq<char>)>) {
    (
        "/keystats/ratio/v1/"@ + normalized_symbol(symbol) + ""@,
        seq![("year_limit"@, dec_digits(snapped_year_limit(year_limit as int) as nat))],
    )
}

/// The key-statistics request for `symbol` with the snapped year limit.
pub fn request(symbol: &str, year_limit: u32) -> (res: ApiRequest)
    ensures
        request_view(res) == request_spec(symbol@, year_limit),
{
    let path = symbol_path("/keystats/ratio/v1/", symbol, "");
    let limit = decimal_string(snap_year_limit(year_limit) as u64);
    let mut query: Vec<(String, String)> = Vec::new();
    query.push(query_pair("year_limit", limit.as_str()));
    assert(query_view(query@) =~= seq![("year_limit"@, limit@)]);
    ApiRequest { path, query }
}

} // verus!
