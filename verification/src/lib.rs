//! Text and image search over a record database: identifiers of stored
//! records, the query text sent to the database, the ranking of search hits,
//! the tokenizer that turns a search sentence into full-text terms, the
//! requests sent to the models, and the answers of the service.
pub mod ai;
pub mod db;
pub mod encoding;
pub mod error;
pub mod handler;
pub mod imaging;
pub mod model;
pub mod rank;
pub mod regex_engine;
pub mod state;
pub mod text;
pub mod tokenize;
pub mod utils;
pub mod vo;
pub mod web;
