//! Small shared helpers: file metadata records and path queries.

pub mod file;
