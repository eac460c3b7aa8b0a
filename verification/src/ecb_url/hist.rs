//! The historical series.

use vstd::prelude::*;

verus! {

/// Every publishing day since the series began.
pub const DAYS_ALL: &'static str = "https://www.ecb.europa.eu/stats/eurofxref/eurofxref-hist.xml";

/// The publishing days of the last ninety days.
pub const DAYS_90: &'static str = "https://www.ecb.europa.eu/stats/eurofxref/eurofxref-hist-90d.xml";

} // verus!
