//! Core value types shared by the search layers.
pub mod error;
pub mod file_id;
pub mod file_table;
pub mod query;
pub mod path;
pub mod result;
