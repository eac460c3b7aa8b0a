//! The shape of the output.

use vstd::prelude::*;

verus! {

/// How the rates are written out.
#[derive(Debug, Clone, Copy, PartialEq, Eq, Structural)]
pub enum FormatOption {
    /// JSON output
    Json,
    /// Plain line-by-line output (with extra flags)
    Plain,
}

} // verus!
