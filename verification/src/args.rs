//! The arguments of each command, as plain values.

use vstd::prelude::*;

verus! {

/// Arguments of the file count command.
#[derive(Debug, Clone, PartialEq, Eq)]
pub struct CountArgs {
    /// Target directory or file
    pub target: String,
}

/// Arguments of the image summary command.
#[derive(Debug, Clone, PartialEq, Eq)]
pub struct ImageSummaryArgs {
    /// Target directory or file
    pub target: String,
}

/// Arguments of the image resize command.
#[derive(Debug, Clone, PartialEq, Eq)]
pub struct ImageResizeArgs {
    /// Input file or directory
    pub input: String,
    /// Requested height
    pub height: u32,
    /// Requested width
    pub width: u32,
    /// Output file or directory
    pub output: String,
    /// Flag to enable overwriting of input file
    pub overwrite: bool,
}

/// Arguments of the image tessellation command.
#[derive(Debug, Clone, PartialEq, Eq)]
pub struct ImageTessellateArgs {
    /// Input file or directory
    pub input: String,
    /// Number of vertical patches
    pub n_vertical: u32,
    /// Number of horizontal patches
    pub n_horizontal: u32,
    /// Output file or directory
    pub output: String,
    /// Delete original file
    pub delete_original: bool,
}

/// Arguments of the command that turns images to landscape.
#[derive(Debug, Clone, PartialEq, Eq)]
pub struct ImageToLandscapeArgs {
    /// Input file or directory
    pub input: String,
    /// Output file or directory
    pub output: String,
    /// Flag to enable overwriting of input file
    pub overwrite: bool,
}

/// Arguments of the command that turns images to portrait.
#[derive(Debug, Clone, PartialEq, Eq)]
pub struct ImageToPortraitArgs {
    /// Input file or directory
    pub input: String,
    /// Output file or directory
    pub output: String,
    /// Flag to enable overwriting of input file
    pub overwrite: bool,
}

/// Arguments of the audio summary command.
#[derive(Debug, Clone, PartialEq, Eq)]
pub struct AudioSummaryArgs {
    /// Target directory or file
    pub target: String,
}

/// Arguments of the audio resampling command.
#[derive(Debug, Clone, PartialEq, Eq)]
pub struct AudioResampleArgs {
    /// Input file or directory
    pub input: String,
    /// Target sample rate
    pub sr: u32,
    /// Output file or directory
    pub output: String,
    /// Flag to enable overwriting of input file
    pub overwrite: bool,
}

/// Arguments of the video summary command.
#[derive(Debug, Clone, PartialEq, Eq)]
pub struct VideoSummaryArgs {
    /// Target directory or file
    pub target: String,
}

/// Arguments of the table schema command.
#[derive(Debug, Clone, PartialEq, Eq)]
pub struct TableSchemaArgs {
    /// Input file (CSV or parquet)
    pub input: String,
}

/// Arguments of the conversion of tables to the columnar format.
#[derive(Debug, Clone, PartialEq, Eq)]
pub struct TableToParquetArgs {
    /// Input CSV file or directory
    pub input: String,
    /// Output directory or file
    pub output: String,
}

/// Arguments of the conversion of tables to CSV.
#[derive(Debug, Clone, PartialEq, Eq)]
pub struct TableToCsvArgs {
    /// Input parquet file
    pub input: String,
    /// Output directory or file
    pub output: String,
}

/// Arguments of the point-cloud summary command.
#[derive(Debug, Clone, PartialEq, Eq)]
pub struct PointcloudSummaryArgs {
    /// Input file or directory
    pub input: String,
    /// If provided, recursively process directories
    pub recursive: bool,
    /// Whether the PCD schema must be exactly x, y, z and rgb
    pub strict_pcd_schema: bool,
}

/// Arguments of the point-cloud conversion command.
#[derive(Debug, Clone, PartialEq, Eq)]
pub struct PointcloudConvertArgs {
    /// Input pointcloud file (e.g. .las, .laz, .pcd)
    pub input: String,
    /// Output pointcloud file (e.g. .las, .pcd)
    pub output: String,
    /// Optional output format hint (not needed if output extension is known)
    pub format: Option<String>,
    /// Whether the PCD schema must be exactly x, y, z and rgb
    pub strict_pcd_schema: bool,
}

/// Arguments of the point-cloud harmonization command.
#[derive(Debug, Clone, PartialEq, Eq)]
pub struct PointcloudHarmonizeArgs {
    /// Input file or directory
    pub input: String,
    /// Output pointcloud directory
    pub output: String,
    /// If provided, recursively process directories
    pub recursive: bool,
}

} // verus!
