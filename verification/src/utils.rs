//! Checks that are made before any conversion starts.

use crate::failure::ConversionOutcome;
use crate::failure::Failure;
use crate::path::FilePath;
use crate::path::PathModel;
use crate::registry::can_read;
use crate::registry::readable;
use crate::registry::Operation;
use crate::text::quote;
use crate::text::quoted;
use vstd::prelude::*;

verus! {

/// What stands at a path.
#[derive(Clone, Copy, Debug, PartialEq, Eq, Structural)]
pub enum PathKind {
    /// Nothing.
    Missing,
    /// A regular file.
    File,
    /// A directory.
    Directory,
}

/// Whether `op` takes the file at `path` as a source: the path has an
/// extension, and `op` reads that extension.
pub open spec fn admissible(op: Operation, path: PathModel) -> bool {
    match path.extension() {
        Some(ext) => readable(op, ext),
        None => false,
    }
}

/// What is reported of a file that `op` does not take.
pub open spec fn wrong_extension_message(path: PathModel) -> Seq<char> {
    "File does not have the right extension: "@ + quoted(path.render())
}

/// What is wrong with the kinds of input and output, if anything: a file
/// cannot be converted into a directory, nor a directory into a file.
pub open spec fn kind_mismatch(input: PathKind, output: PathKind) -> Option<Seq<char>> {
    if input == PathKind::File && output == PathKind::Directory {
        Some("Input is a file but output is a directory"@)
    } else if input == PathKind::Directory && output == PathKind::File {
        Some("Input is a directory but output is a file"@)
    } else {
        None
    }
}

/// Whether `op` takes the file at `path` as a source.
pub fn is_admissible(op: Operation, path: &FilePath) -> (r: bool)
    ensures
        r == admissible(op, path@),
{
    match path.extension() {
        Some(ext) => can_read(op, ext.as_str()),
        None => false,
    }
}

/// Succeeds where `op` takes the file at `path` as a source, and fails with
/// one cause that names the path where it does not.
pub fn file_has_right_extension(path: &FilePath, op: Operation) -> (r: ConversionOutcome)
    ensures
        match r {
            Ok(_) => admissible(op, path@),
            Err(failure) => !admissible(op, path@) && failure@ == seq![
                wrong_extension_message(path@),
            ],
        },
{
    if is_admissible(op, path) {
        Ok(())
    } else {
        let mut message = String::from_str("File does not have the right extension: ");
        let text = path.to_string();
        let shown = quote(text.as_str());
        message.append(shown.as_str());
        Err(Failure::new(message.as_str()))
    }
}

/// Succeeds unless the kinds of input and output contradict each other, and
/// fails with the one cause that [`kind_mismatch`] gives.
pub fn perform_io_sanity_check(input: PathKind, output: PathKind) -> (r: ConversionOutcome)
    ensures
        match r {
            Ok(_) => kind_mismatch(input, output) is None,
            Err(failure) => kind_mismatch(input, output) == Some(failure@[0]) && failure@.len()
                == 1,
        },
{
    if input == PathKind::File && output == PathKind::Directory {
        Err(Failure::new("Input is a file but output is a directory"))
    } else if input == PathKind::Directory && output == PathKind::File {
        Err(Failure::new("Input is a directory but output is a file"))
    } else {
        Ok(())
    }
}

} // verus!
