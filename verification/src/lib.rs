//! Core of a record-listing API backend: compiling a sparse filter into a
//! parameterized SQL predicate, keyset pagination with overfetch, and
//! translation of storage uniqueness-violation identifiers into
//! field-addressable error payloads.

pub mod text;
pub mod to_sql;
pub mod response;
pub mod extractor;
pub mod query;
pub mod constraint;
pub mod error;
pub mod utils;
pub mod models;
pub mod schema;
pub mod users_db;
pub mod views;
