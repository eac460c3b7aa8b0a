//! The order of the rows of a table.

use vstd::prelude::*;

verus! {

/// By what the rows of a table are ordered.
#[derive(Debug, Clone, Copy, PartialEq, Eq, Structural)]
pub enum SortBy {
    /// By the name of the currency, in alphabetical order.
    Currency,
    /// By the rate, from low to high.
    Rate,
}

} // verus!
