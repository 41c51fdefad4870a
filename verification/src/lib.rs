//! Verified core of a SurrealDB migration tool: migration file naming,
//! ordering and selection, tag filtering, schema definition bookkeeping,
//! configuration lookup and file content generation.

pub mod common;
pub mod order_safety;
pub mod order;
pub mod sorting;
pub mod strings;
pub mod constants;
pub mod models;
pub mod file;
pub mod apply;
pub mod statements;
pub mod io;
pub mod definitions;
pub mod config;
pub mod cli;
pub mod create;
pub mod input;
pub mod branch;
pub mod diff;
pub mod list;
pub mod scaffold;
pub mod runner;
pub mod schema_import;
pub mod sql_schema;
pub mod remove;
pub mod branch_diff;
pub mod laws;
