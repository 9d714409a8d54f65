//! Current quote snapshot from the chart API `meta` block (open, no crumb).

use vstd::prelude::*;

use crate::api::{query_pair, query_view};

verus! {

/// The chart query of a one-day snapshot.
pub fn query() -> (res: Vec<(String, String)>)
    ensures
        query_view(res@) == seq![("interval"@, "1d"@), ("range"@, "1d"@)],
{
    let mut q: Vec<(String, String)> = Vec::new();
    q.push(query_pair("interval", "1d"));
    q.push(query_pair("range", "1d"));
    assert(query_view(q@) =~= seq![("interval"@, "1d"@), ("range"@, "1d"@)]);
    q
}

} // verus!
