//! Core logic of a cross-implementation benchmark harness: load partitioning
//! and result merging for the concurrent HTTP benchmark, normalization of
//! analysis-tool output into finding counts, and the metric record model.

pub mod etl;
pub mod http;
pub mod json;
pub mod lint;
pub mod normalize;
pub mod partition;
pub mod record;
pub mod rng;
pub mod text;
