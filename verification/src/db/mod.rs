//! Everything the library decides about the database: the query text that
//! is sent, and what to do with what comes back.
pub mod entity;
pub mod merge;
pub mod query;
pub mod select;
pub mod sql;
