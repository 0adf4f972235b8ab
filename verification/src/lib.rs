//! Batch conversion planning and policy for tabular and point-cloud data.

pub mod args;
pub mod bounds;
pub mod commands;
pub mod engine;
pub mod failure;
pub mod path;
pub mod plan;
pub mod registry;
pub mod text;
pub mod utils;

pub use crate::args::AudioResampleArgs;
pub use crate::args::AudioSummaryArgs;
pub use crate::args::CountArgs;
pub use crate::args::ImageResizeArgs;
pub use crate::args::ImageSummaryArgs;
pub use crate::args::ImageTessellateArgs;
pub use crate::args::ImageToLandscapeArgs;
pub use crate::args::ImageToPortraitArgs;
pub use crate::args::PointcloudConvertArgs;
pub use crate::args::PointcloudHarmonizeArgs;
pub use crate::args::PointcloudSummaryArgs;
pub use crate::args::TableSchemaArgs;
pub use crate::args::TableToCsvArgs;
pub use crate::args::TableToParquetArgs;
pub use crate::args::VideoSummaryArgs;
pub use crate::failure::handle_error;
