//! Data that flows through ingestion and search.
pub mod input;
pub mod search;
