//! Conversion of a point cloud to the binary point-cloud format.

use crate::args::PointcloudConvertArgs;
use crate::bounds::compute_bounds;
use crate::bounds::transforms_of;
use crate::bounds::BoundingBox;
use crate::bounds::PointRecord;
use crate::bounds::Transforms;
use crate::commands::pointcloud::pointcloud_utils::extension;
use crate::commands::pointcloud::pointcloud_utils::extension_text;
use crate::commands::pointcloud::pointcloud_utils::is_supported_extension;
use crate::failure::ConversionOutcome;
use crate::failure::Failure;
use crate::registry::can_write;
use crate::registry::supported;
use crate::registry::writable;
use crate::registry::Operation;
use vstd::prelude::*;

verus! {

/// What the header of a written file carries.
#[derive(Debug, Clone, PartialEq, Eq)]
pub struct LasHeaderPlan {
    /// The major number of the format version.
    pub version_major: u8,
    /// The minor number of the format version.
    pub version_minor: u8,
    /// The name of the software that wrote the file.
    pub generating_software: String,
    /// The identifier of the system that wrote the file.
    pub system_identifier: String,
    /// How the coordinates are stored.
    pub transforms: Transforms,
}

/// The mathematical value of a header plan.
pub struct HeaderModel {
    pub version_major: u8,
    pub version_minor: u8,
    pub generating_software: Seq<char>,
    pub system_identifier: Seq<char>,
    pub transforms: Transforms,
}

impl View for LasHeaderPlan {
    type V = HeaderModel;

    open spec fn view(&self) -> HeaderModel {
        HeaderModel {
            version_major: self.version_major,
            version_minor: self.version_minor,
            generating_software: self.generating_software@,
            system_identifier: self.system_identifier@,
            transforms: self.transforms,
        }
    }
}

/// The header for a point cloud with these bounds: version 1.4, this
/// tool as software and system, and the transforms that the bounds give.
pub open spec fn header_for(bounds: BoundingBox) -> HeaderModel {
    HeaderModel {
        version_major: 1,
        version_minor: 4,
        generating_software: "datatool"@,
        system_identifier: "datatool"@,
        transforms: transforms_of(bounds),
    }
}

/// The header for a point cloud with these bounds.
pub fn plan_header(bounds: &BoundingBox) -> (r: LasHeaderPlan)
    ensures
        r@ == header_for(*bounds),
{
    LasHeaderPlan {
        version_major: 1,
        version_minor: 4,
        generating_software: String::from_str("datatool"),
        system_identifier: String::from_str("datatool"),
        transforms: bounds.transforms(),
    }
}

/// Whether `outcome` is what writing `points` may end in: a buffer
/// without points is refused; else the writer is handed the header for
/// the bounding box of the points, and its outcome is the outcome.
pub open spec fn write_outcome<B, W: FnOnce(&String, &B, &LasHeaderPlan) -> ConversionOutcome>(
    write: W,
    path: String,
    buffer: B,
    points: Seq<PointRecord>,
    outcome: ConversionOutcome,
) -> bool {
    if points.len() == 0 {
        outcome matches Err(failure) && failure@ == seq!["Cannot write an empty point cloud"@]
    } else {
        exists|plan: LasHeaderPlan, bounds: BoundingBox|
            #![trigger call_ensures(write, (&path, &buffer, &plan), outcome), bounds.bounds(points)]
            bounds.bounds(points) && plan@ == header_for(bounds) && call_ensures(
                write,
                (&path, &buffer, &plan),
                outcome,
            )
    }
}

/// Writes a point buffer as a file of the binary point-cloud format: computes
/// the bounding box of `points`, the points of `buffer`, derives the header
/// from it, and hands path, buffer and header to `write`. The outcome is
/// stated by [`write_outcome`].
pub fn write_las_file<B, W>(path: &String, buffer: &B, points: &Vec<PointRecord>, write: W) -> (r:
    ConversionOutcome) where W: FnOnce(&String, &B, &LasHeaderPlan) -> ConversionOutcome
    requires
        forall|plan: LasHeaderPlan| call_requires(write, (path, buffer, &plan)),
    ensures
        write_outcome(write, *path, *buffer, points@, r),
{
    match compute_bounds(points) {
        Some(bounds) => {
            let plan = plan_header(&bounds);
            let r = write(path, buffer, &plan);
            assert(bounds.bounds(points@) && call_ensures(write, (path, buffer, &plan), r));
            r
        },
        None => Err(Failure::new("Cannot write an empty point cloud")),
    }
}

/// What is wrong with the formats of a conversion, if anything: the input
/// format must be known, the output format must be known, and the output
/// format must be one that is written.
pub open spec fn format_mismatch(input: Seq<char>, output: Seq<char>) -> Option<Seq<char>> {
    let input_ext = extension_text(input);
    let output_ext = extension_text(output);
    if !supported(Operation::PointcloudConvert, input_ext) {
        Some("Unsupported input format: "@ + input_ext)
    } else if !supported(Operation::PointcloudConvert, output_ext) {
        Some("Unsupported output format: "@ + output_ext)
    } else if !writable(Operation::PointcloudConvert, output_ext) {
        Some("Currently only supports writing to LAS/LAZ output"@)
    } else {
        None
    }
}

/// Checks the formats of a conversion by the extensions of its paths:
/// succeeds where [`format_mismatch`] finds nothing, and fails with the one
/// cause that it gives.
pub fn check_formats(input: &str, output: &str) -> (r: ConversionOutcome)
    ensures
        match r {
            Ok(_) => format_mismatch(input@, output@) is None,
            Err(failure) => format_mismatch(input@, output@) == Some(failure@[0])
                && failure@.len() == 1,
        },
{
    let input_ext = extension(input);
    let output_ext = extension(output);
    if !is_supported_extension(input_ext.as_str()) {
        let mut message = String::from_str("Unsupported input format: ");
        message.append(input_ext.as_str());
        return Err(Failure::new(message.as_str()));
    }
    if !is_supported_extension(output_ext.as_str()) {
        let mut message = String::from_str("Unsupported output format: ");
        message.append(output_ext.as_str());
        return Err(Failure::new(message.as_str()));
    }
    if !can_write(Operation::PointcloudConvert, output_ext.as_str()) {
        return Err(Failure::new("Currently only supports writing to LAS/LAZ output"));
    }
    Ok(())
}

/// Whether `outcome` is what the command may end in: a mismatch of the
/// formats fails before anything is read; a failure to read is the outcome;
/// else the outcome is that of writing the points that were read.
pub open spec fn execute_outcome<
    B,
    R: FnOnce(&String) -> Result<B, Failure>,
    K: FnOnce(&B) -> Vec<PointRecord>,
    W: FnOnce(&String, &B, &LasHeaderPlan) -> ConversionOutcome,
>(read: R, records: K, write: W, args: PointcloudConvertArgs, outcome: ConversionOutcome) -> bool {
    match format_mismatch(args.input@, args.output@) {
        Some(mismatch) => outcome matches Err(failure) && failure@ == seq![mismatch],
        None => exists|loaded: Result<B, Failure>| #[trigger]
            call_ensures(read, (&args.input,), loaded) && match loaded {
                Ok(buffer) => exists|points: Vec<PointRecord>| #[trigger]
                    call_ensures(records, (&buffer,), points) && write_outcome(
                        write,
                        args.output,
                        buffer,
                        points@,
                        outcome,
                    ),
                Err(failure) => outcome == Err::<(), Failure>(failure),
            },
    }
}

/// Converts the point cloud that `args` names: checks the formats, reads
/// the input with `read`, takes its points with `records`, and writes them
/// with `write`. The outcome is stated by [`execute_outcome`].
pub fn execute<B, R, K, W>(args: &PointcloudConvertArgs, read: R, records: K, write: W) -> (r:
    ConversionOutcome) where
    R: FnOnce(&String) -> Result<B, Failure>,
    K: FnOnce(&B) -> Vec<PointRecord>,
    W: FnOnce(&String, &B, &LasHeaderPlan) -> ConversionOutcome,

    requires
        call_requires(read, (&args.input,)),
        forall|buffer: B| call_requires(records, (&buffer,)),
        forall|buffer: B, plan: LasHeaderPlan| call_requires(write, (&args.output, &buffer, &plan)),
    ensures
        execute_outcome(read, records, write, *args, r),
{
    match check_formats(args.input.as_str(), args.output.as_str()) {
        Ok(_) => {},
        Err(failure) => {
            assert(failure@ =~= seq![format_mismatch(args.input@, args.output@)->0]);
            return Err(failure);
        },
    }
    let loaded = read(&args.input);
    match loaded {
        Ok(buffer) => {
            let points = records(&buffer);
            let r = write_las_file(&args.output, &buffer, &points, write);
            assert(call_ensures(records, (&buffer,), points) && write_outcome(
                write,
                args.output,
                buffer,
                points@,
                r,
            ));
            assert(call_ensures(read, (&args.input,), loaded));
            r
        },
        Err(failure) => {
            assert(call_ensures(read, (&args.input,), loaded));
            Err(failure)
        },
    }
}

/// What is reported after a conversion: `Converted '<input>' to '<output>'`.
pub open spec fn converted_message_of(input: Seq<char>, output: Seq<char>) -> Seq<char> {
    "Converted '"@ + input + "' to '"@ + output + "'"@
}

/// What is reported after the conversion that `args` names.
pub fn converted_message(args: &PointcloudConvertArgs) -> (r: String)
    ensures
        r@ == converted_message_of(args.input@, args.output@),
{
    let mut message = String::from_str("Converted '");
    message.append(args.input.as_str());
    message.append("' to '");
    message.append(args.output.as_str());
    message.append("'");
    message
}

} // verus!
