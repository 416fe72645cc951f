//! Videre's library: the decisions behind a read-only PostgreSQL inspector.
//!
//! Identifier quoting and query text, the typing of key parameters, the
//! decoding of cells, catalog mapping, and the state kept by the user
//! interface (tabs, saved connections, metadata, sorting, themes).

pub mod commands;
pub mod json;
pub mod pg;
pub mod text;
pub mod types;
pub mod ui;
