//! Cached snapshots, the decision whether one is still current, and the
//! store that keeps one snapshot for each view.

pub mod cache;
pub mod cache_line;

pub use cache::{Cache, Persisted};
pub use cache_line::CacheLine;
