//! Workload-driven advisor for a PostgreSQL installation.
//!
//! The core of the library inspects a captured workload of executed SQL
//! statements, attributes the columns referenced in filter, join and ordering
//! position to the base tables they belong to, checks the resulting composite
//! column lists against the indexes that already exist, and merges the
//! candidates discovered across many statements into one ranked list.

pub mod config;
pub mod indexes;
pub mod laws;
pub mod models;
pub mod parse;
pub mod query_parser;
pub mod query_spec;
pub mod reporter;
pub mod sql_ast;
pub mod text;
pub mod workload;
