//! Analyst data via Yahoo `quoteSummary` (needs crumb handshake):
//! recommendations, price targets and estimates.

use vstd::prelude::*;

verus! {

/// The `quoteSummary` modules of the analyst payload.
pub const MODULES: &'static str = "recommendationTrend,upgradeDowngradeHistory,financialData,earningsTrend";

} // verus!
