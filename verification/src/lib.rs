//! A small visit-tagging web service: tags arriving over HTTP are queued,
//! written to an SQLite table in batches, and listed back on request.
//!
//! This crate holds the service's logic: the string model of the SQL it
//! sends, the queue of pending tags, the route table and the handlers'
//! decisions, and the reading of the configuration file.

pub mod config;
pub mod db;
pub mod my_log;
pub mod server;
pub mod str_map;
pub mod text;
