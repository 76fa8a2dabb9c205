//! The query engine: values and column types, the table catalog, row
//! filtering and joins, aggregation, window functions, and the database that
//! runs statements against its tables.

pub mod values;
pub mod ast;
pub mod failure;
pub mod catalog;
pub mod rows;
pub mod aggregate;
pub mod window;
pub mod database;
pub mod server;
pub mod query_pipeline;
