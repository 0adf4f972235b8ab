//! The commands, one module per kind of data.

pub mod pointcloud;
pub mod table;
