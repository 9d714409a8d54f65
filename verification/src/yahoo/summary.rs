//! Fundamentals & company profile via Yahoo `quoteSummary` (needs crumb handshake).

use vstd::prelude::*;

verus! {

/// The `quoteSummary` modules of the fundamentals payload.
pub const MODULES: &'static str = "summaryDetail,defaultKeyStatistics,financialData,assetProfile";

} // verus!
