//! What the point-cloud commands share: extensions and bounds.

pub use crate::bounds::compute_bounds;
use crate::path::FilePath;
use crate::path::PathModel;
use crate::registry::is_supported;
use crate::registry::supported;
use crate::registry::Operation;
use vstd::prelude::*;

verus! {

/// The extension of a path text, or the empty text where it has none.
pub open spec fn extension_text(path: Seq<char>) -> Seq<char> {
    match PathModel::parse(path).extension() {
        Some(ext) => ext,
        None => Seq::empty(),
    }
}

/// The extension of a path text, or the empty text where it has none.
pub fn extension(path: &str) -> (r: String)
    ensures
        r@ == extension_text(path@),
{
    match FilePath::parse(path).extension() {
        Some(ext) => ext,
        None => String::new(),
    }
}

/// Whether `ext` is the extension of a point-cloud format that is known.
pub fn is_supported_extension(ext: &str) -> (r: bool)
    ensures
        r == supported(Operation::PointcloudConvert, ext@),
{
    is_supported(Operation::PointcloudConvert, ext)
}

} // verus!
