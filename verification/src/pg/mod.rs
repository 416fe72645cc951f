//! Everything specific to PostgreSQL: identifier quoting, the typing of key
//! parameters and the decoding of cells, the query text for reading rows,
//! and the mapping of catalog codes.

pub mod convert;
pub mod relation_structure;
pub mod data;
