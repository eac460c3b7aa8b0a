//! What the command line can ask for.

pub mod cli_t;
pub mod since;
pub mod sort_by;

pub use cli_t::FormatOption;
pub use since::ShowDays;
pub use sort_by::SortBy;
