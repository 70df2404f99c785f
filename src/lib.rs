//! Retention policy, query limits and ingest checks for a time series of
//! sensor readings kept in a key-value store.

pub mod batch;
pub mod cleanup;
pub mod ingest;
pub mod retention;
pub mod query;
pub mod text;
