//! The dataset variants that can be asked for.

use crate::ecb_url;
use vstd::prelude::*;

verus! {

/// Which span of publishing days a request covers.
#[derive(Debug, Clone, Copy, PartialEq, Eq, Structural)]
pub enum View {
    TODAY,
    HistDays90,
    HistDaysAll,
}

impl View {
    /// The address from which this view is fetched.
    pub fn to_ecb_url(&self) -> (r: &'static str)
        ensures
            r == match self {
                View::TODAY => ecb_url::TODAY,
                View::HistDays90 => ecb_url::hist::DAYS_90,
                View::HistDaysAll => ecb_url::hist::DAYS_ALL,
            },
    {
        match self {
            Self::TODAY => ecb_url::TODAY,
            Self::HistDays90 => ecb_url::hist::DAYS_90,
            Self::HistDaysAll => ecb_url::hist::DAYS_ALL,
        }
    }

    /// The name under which this view is kept in the cache.
    pub fn get_name(&self) -> (r: &'static str)
        ensures
            r == match self {
                View::TODAY => "today",
                View::HistDays90 => "last-90-days",
                View::HistDaysAll => "all-days",
            },
    {
        match self {
            Self::TODAY => "today",
            Self::HistDays90 => "last-90-days",
            Self::HistDaysAll => "all-days",
        }
    }
}

} // verus!
