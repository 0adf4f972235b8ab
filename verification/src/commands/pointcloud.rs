//! Commands on point clouds.

pub mod convert;
pub mod pointcloud_utils;
