//! Footer field overrides for Parquet `FileMetaData`: the values that replace
//! fields of the footer on write, and the reader that pulls such fields out of
//! a footer before the standard decoder sees them.

pub mod value;
pub mod compact;
pub mod error;
pub mod write;
pub mod read;
pub mod laws;
