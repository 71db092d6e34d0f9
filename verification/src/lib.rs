//! A small query engine: `select <cols> from <dataset> [where <predicate>]`
//! over comma-delimited datasets with a header row.
//!
//! The library works on plain values. Whoever embeds it reads and writes the
//! files and hands their bytes over; lexing, parsing, predicate evaluation,
//! the dataset registry and the row cache are decided here.

pub mod error;
pub mod text;
pub mod lexer;
pub mod filter;
pub mod parser;
pub mod data;
pub mod driver;

pub use crate::driver::{perform_query, QueryResult};
pub use crate::error::QueryError;
