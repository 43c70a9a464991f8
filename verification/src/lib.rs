//! A table lifecycle and I/O manager for a snapshot-based columnar table
//! format: schema registry, row validation and columnar conversion, data file
//! naming, snapshot history, and the write and read paths, together with an
//! executable model of the catalog and of the file store they run against.

pub mod catalog;
pub mod error;
pub mod laws;
pub mod location;
pub mod manager;
pub mod model;
pub mod row;
pub mod schema;
pub mod store;
pub mod stream;
pub mod table;
