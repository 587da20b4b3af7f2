//! Predicate evaluation over record metadata: a signed bitmap algebra, an
//! in-memory overlay index over materialized log records, and the filter
//! operation that reconciles log-scoped and segment-scoped matches.
pub mod bitmap;
pub mod signed;
pub mod types;
pub mod log_reader;
pub mod provider;
pub mod eval;
pub mod filter;
