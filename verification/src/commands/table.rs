//! Commands on tabular data.

pub mod csv;
pub mod to_parquet;
