//! Where the European Central Bank publishes its reference rates.

pub mod hist;

use vstd::prelude::*;

verus! {

/// The rates of the latest publishing day.
pub const TODAY: &'static str = "https://www.ecb.europa.eu/stats/eurofxref/eurofxref-daily.xml";

} // verus!
