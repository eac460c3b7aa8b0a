//! Exchange-rate client core: the holiday calendar of the publisher, the
//! freshness decision for cached snapshots, and the per-view cache store.

pub mod caching;
pub mod cli;
pub mod date;
pub mod ecb_url;
pub mod header_description;
pub mod holiday;
pub mod models;
pub mod os;
pub mod parsing;
pub mod text;
pub mod timekeeping;
pub mod utils_calc;
pub mod view;

pub use header_description::HeaderDescription;
pub use holiday::Hollidays;
pub use view::View;

use vstd::prelude::*;

verus! {

/// Name of the directory in which the program keeps its files.
pub const APP_NAME: &'static str = "ECB-rates";

/// Width of a table in characters.
pub const DEFAULT_WIDTH: usize = 20;

} // verus!
