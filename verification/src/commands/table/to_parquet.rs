//! Conversion of comma-separated tables to the columnar binary format, for
//! one file or for every such file of a directory tree.

use crate::args::TableToParquetArgs;
use crate::commands::table::csv::consistent_columns;
use crate::commands::table::csv::has_consistent_columns;
use crate::engine::batch_outcome;
use crate::engine::callable;
use crate::engine::job_outcome;
use crate::engine::planned_of;
use crate::engine::run_batch;
use crate::engine::run_job;
use crate::engine::ConversionJob;
use crate::engine::PlannedJob;
use crate::failure::ConversionOutcome;
use crate::failure::Failure;
use crate::path::FilePath;
use crate::path::PathModel;
use crate::plan::entries_of;
use crate::plan::plan_directory;
use crate::plan::plan_of;
use crate::plan::plan_single;
use crate::plan::selected;
use crate::plan::single_job;
use crate::plan::lemma_nothing_selected_nothing_planned;
use crate::plan::WalkEntry;
use crate::registry::Operation;
use crate::text::quote;
use crate::text::quoted;
use crate::utils::admissible;
use crate::utils::file_has_right_extension;
use crate::utils::kind_mismatch;
use crate::utils::perform_io_sanity_check;
use crate::utils::wrong_extension_message;
use crate::utils::PathKind;
use polars::prelude::CsvReadOptions;
use polars::prelude::DataFrame;
use polars::prelude::ParquetWriter;
use polars::prelude::PolarsError;
use polars::prelude::SerReader;
use vstd::prelude::*;

verus! {

/// Polars' `DataFrame`, a table in memory. Nothing inside it is seen here.
#[verifier::external_type_specification]
#[verifier::external_body]
pub struct ExDataFrame(DataFrame);

/// Polars' `PolarsError`. Nothing inside it is seen here.
#[verifier::external_type_specification]
#[verifier::external_body]
pub struct ExPolarsError(PolarsError);

/// Polars' `Column`, which the indexing of a `DataFrame` hands out; it is
/// declared because the frame cannot be declared without it.
#[verifier::external_type_specification]
#[verifier::external_body]
pub struct ExColumn(polars::prelude::Column);

/// A table held in memory, column by column: every column has a name and
/// a type, and all columns have as many values as the table has rows.
pub struct ColumnarTable {
    frame: DataFrame,
}

/// The context that a table which could not be parsed is reported under.
pub open spec fn read_context(source: PathModel) -> Seq<char> {
    "Failed to finish CSV reading: "@ + quoted(source.render())
}

/// The context that a table which could not be encoded is reported under.
pub open spec fn write_context(destination: PathModel) -> Seq<char> {
    "Failed to write parquet file: "@ + quoted(destination.render())
}

/// The cause chain of a table whose rows differ in their number of columns.
pub open spec fn ragged_causes(source: PathModel) -> Seq<Seq<char>> {
    seq![read_context(source), "Rows differ in their number of columns"@]
}

/// Calls polars' CSV reader on the bytes of a file, with the default
/// options and a header row. Nothing is claimed of the result.
#[verifier::external_body]
fn read_csv(csv: &[u8]) -> (r: Result<DataFrame, PolarsError>) {
    CsvReadOptions::default().with_has_header(true).into_reader_with_file_handle(
        std::io::Cursor::new(csv),
    ).finish()
}

/// Calls polars' `ParquetWriter::finish` on a writer into memory, and
/// hands out what it wrote. Nothing is claimed of the result.
#[verifier::external_body]
fn write_parquet(frame: &mut DataFrame) -> (r: Result<Vec<u8>, PolarsError>) {
    let mut bytes: Vec<u8> = Vec::new();
    ParquetWriter::new(&mut bytes).finish(frame)?;
    Ok(bytes)
}

/// The text of a polars error, by its `to_string`. Nothing is claimed of the result.
#[verifier::external_body]
fn error_text(error: &PolarsError) -> (r: String) {
    error.to_string()
}

/// A failure of two causes: `context` with `path` in quotes, then the text of `error`.
fn table_failure(context: &str, path: &FilePath, error: &PolarsError) -> (r: Failure)
    ensures
        r@.len() == 2,
        r@[0] == context@ + quoted(path@.render()),
{
    let mut message = String::from_str(context);
    let text = path.to_string();
    let shown = quote(text.as_str());
    message.append(shown.as_str());
    let cause = error_text(error);
    Failure::new(cause.as_str()).context(message.as_str())
}

impl ColumnarTable {
    /// The table as the parser handed it out.
    pub closed spec fn parsed(self) -> DataFrame {
        self.frame
    }

    /// The table that the parser made of the file `source`: the parsed
    /// table as it is, or a failure of two causes under [`read_context`].
    pub fn from_parsed(source: &FilePath, parsed: Result<DataFrame, PolarsError>) -> (r: Result<
        ColumnarTable,
        Failure,
    >)
        ensures
            match parsed {
                Ok(frame) => r matches Ok(table) && table.parsed() == frame,
                Err(_) => r matches Err(failure) && failure@.len() == 2 && failure@[0]
                    == read_context(source@),
            },
    {
        match parsed {
            Ok(frame) => Ok(ColumnarTable { frame }),
            Err(error) => Err(table_failure("Failed to finish CSV reading: ", source, &error)),
        }
    }

    /// Parses the bytes of the comma-separated file `source`, whose first
    /// row names the columns. The whole table is built before anything is
    /// encoded.
    ///
    /// A text whose rows differ in their number of columns is refused with
    /// [`ragged_causes`], and is not handed to the parser. Any other text is
    /// parsed; whether that succeeds is the parser's to say. Every failure has
    /// two causes, the first is [`read_context`].
    pub fn from_csv(source: &FilePath, csv: &[u8]) -> (r: Result<ColumnarTable, Failure>)
        ensures
            !consistent_columns(csv@) ==> (r matches Err(failure) && failure@ == ragged_causes(
                source@,
            )),
            r matches Err(failure) ==> failure@.len() == 2 && failure@[0] == read_context(
                source@,
            ),
    {
        if !has_consistent_columns(csv) {
            let mut message = String::from_str("Failed to finish CSV reading: ");
            let text = source.to_string();
            let shown = quote(text.as_str());
            message.append(shown.as_str());
            let failure = Failure::new("Rows differ in their number of columns").context(
                message.as_str(),
            );
            assert(failure@ =~= ragged_causes(source@));
            return Err(failure);
        }
        ColumnarTable::from_parsed(source, read_csv(csv))
    }

    /// What the encoder made of a table for the file `destination`: the
    /// bytes as they are, or a failure of two causes under [`write_context`].
    pub fn from_encoded(destination: &FilePath, encoded: Result<Vec<u8>, PolarsError>) -> (r:
        Result<Vec<u8>, Failure>)
        ensures
            match encoded {
                Ok(bytes) => r == Ok::<Vec<u8>, Failure>(bytes),
                Err(_) => r matches Err(failure) && failure@.len() == 2 && failure@[0]
                    == write_context(destination@),
            },
    {
        match encoded {
            Ok(bytes) => Ok(bytes),
            Err(error) => Err(table_failure("Failed to write parquet file: ", destination, &error)),
        }
    }

    /// Encodes the table as one compressed columnar file for `destination`.
    /// A failure has two causes, the first is [`write_context`].
    pub fn to_parquet(self, destination: &FilePath) -> (r: Result<Vec<u8>, Failure>)
        ensures
            r matches Err(failure) ==> failure@.len() == 2 && failure@[0] == write_context(
                destination@,
            ),
    {
        let mut frame = self.frame;
        ColumnarTable::from_encoded(destination, write_parquet(&mut frame))
    }
}

/// Converts the bytes of one comma-separated file to the bytes of its
/// columnar file: parses all of it, then encodes.
///
/// A text whose rows differ in their number of columns fails with
/// [`ragged_causes`] of the job's source, and nothing is encoded. Every
/// failure has two causes; the first is [`read_context`] of the job's
/// source where the table could not be parsed, and [`write_context`] of
/// its destination where it could not be encoded.
pub fn process_file(job: &ConversionJob, csv: &[u8]) -> (r: Result<Vec<u8>, Failure>)
    ensures
        !consistent_columns(csv@) ==> (r matches Err(failure) && failure@ == ragged_causes(
            job@.source,
        )),
        r matches Err(failure) ==> failure@.len() == 2 && (failure@[0] == read_context(
            job@.source,
        ) || failure@[0] == write_context(job@.destination)),
{
    match ColumnarTable::from_csv(&job.source, csv) {
        Ok(table) => table.to_parquet(&job.destination),
        Err(failure) => Err(failure),
    }
}

/// Whether `outcome` is what processing `input` may end in.
///
/// Where the input is a regular file there is one job, from the input to
/// the output with the columnar extension, and no walk; an input that is
/// no comma-separated file fails at once. Otherwise the tree under the input
/// is walked, and the batch planned from its entries is run.
pub open spec fn process_outcome<
    W: FnOnce(&FilePath) -> Vec<WalkEntry>,
    D: Fn(&FilePath) -> ConversionOutcome,
    F: Fn(&ConversionJob) -> ConversionOutcome,
>(
    walk: W,
    create_dir: D,
    convert: F,
    input: FilePath,
    output: PathModel,
    input_kind: PathKind,
    outcome: ConversionOutcome,
) -> bool {
    if input_kind == PathKind::File {
        if admissible(Operation::TableToParquet, input@) {
            exists|job: ConversionJob|
                job@ == single_job(Operation::TableToParquet, input@, output)
                    && #[trigger] job_outcome(convert, job, outcome)
        } else {
            outcome matches Err(failure) && failure@ == seq![wrong_extension_message(input@)]
        }
    } else {
        exists|entries: Vec<WalkEntry>, items: Vec<PlannedJob>|
            #![trigger call_ensures(walk, (&input,), entries), batch_outcome(create_dir, convert, items@, outcome)]
            call_ensures(walk, (&input,), entries) && planned_of(items@) == plan_of(
                Operation::TableToParquet,
                input@,
                output,
                entries_of(entries@),
            ) && batch_outcome(create_dir, convert, items@, outcome)
    }
}

/// Processes a single file or all the files of a directory tree; the
/// outcome is stated by [`process_outcome`].
pub fn process<W, D, F>(
    input: &FilePath,
    output: &FilePath,
    input_kind: PathKind,
    walk: W,
    create_dir: &D,
    convert: &F,
) -> (r: ConversionOutcome) where
    W: FnOnce(&FilePath) -> Vec<WalkEntry>,
    D: Fn(&FilePath) -> ConversionOutcome + Sync + Send,
    F: Fn(&ConversionJob) -> ConversionOutcome + Sync + Send,

    requires
        call_requires(walk, (input,)),
        callable(*create_dir, *convert),
    ensures
        process_outcome(walk, *create_dir, *convert, *input, output@, input_kind, r),
{
    if input_kind == PathKind::File {
        match file_has_right_extension(input, Operation::TableToParquet) {
            Ok(_) => {
                let job = plan_single(Operation::TableToParquet, input, output);
                let r = run_job(convert, &job);
                assert(job_outcome(*convert, job, r));
                r
            },
            Err(failure) => Err(failure),
        }
    } else {
        let entries = walk(input);
        let items = plan_directory(Operation::TableToParquet, input, output, &entries);
        let r = run_batch(&items, create_dir, convert);
        assert(call_ensures(walk, (input,), entries) && batch_outcome(
            *create_dir,
            *convert,
            items@,
            r,
        ));
        r
    }
}

/// Whether `outcome` is what the command may end in: a mismatch between
/// the kinds of input and output fails before anything else is done, under
/// the context `Sanity check failed`; then the outcome is that of
/// [`process`], a failure put under the context `Processing failed`.
pub open spec fn execute_outcome<
    W: FnOnce(&FilePath) -> Vec<WalkEntry>,
    D: Fn(&FilePath) -> ConversionOutcome,
    F: Fn(&ConversionJob) -> ConversionOutcome,
>(
    walk: W,
    create_dir: D,
    convert: F,
    args: TableToParquetArgs,
    input_kind: PathKind,
    output_kind: PathKind,
    outcome: ConversionOutcome,
) -> bool {
    let output = PathModel::parse(args.output@);
    match kind_mismatch(input_kind, output_kind) {
        Some(mismatch) => outcome matches Err(failure) && failure@ == seq![
            "Sanity check failed"@,
            mismatch,
        ],
        None => exists|input: FilePath, processed: ConversionOutcome|
            #![trigger process_outcome(walk, create_dir, convert, input, output, input_kind, processed)]
            input@ == PathModel::parse(args.input@) && process_outcome(
                walk,
                create_dir,
                convert,
                input,
                output,
                input_kind,
                processed,
            ) && match outcome {
                Ok(_) => processed is Ok,
                Err(failure) => processed matches Err(inner) && failure@ == seq![
                    "Processing failed"@,
                ] + inner@,
            },
    }
}

/// Converts the comma-separated file, or every such file of the tree, that
/// `args` names; the outcome is stated by [`execute_outcome`].
pub fn execute<W, D, F>(
    args: &TableToParquetArgs,
    input_kind: PathKind,
    output_kind: PathKind,
    walk: W,
    create_dir: &D,
    convert: &F,
) -> (r: ConversionOutcome) where
    W: FnOnce(&FilePath) -> Vec<WalkEntry>,
    D: Fn(&FilePath) -> ConversionOutcome + Sync + Send,
    F: Fn(&ConversionJob) -> ConversionOutcome + Sync + Send,

    requires
        forall|input: FilePath| call_requires(walk, (&input,)),
        callable(*create_dir, *convert),
    ensures
        execute_outcome(walk, *create_dir, *convert, *args, input_kind, output_kind, r),
{
    let input = FilePath::parse(args.input.as_str());
    let output = FilePath::parse(args.output.as_str());
    match perform_io_sanity_check(input_kind, output_kind) {
        Ok(_) => {},
        Err(failure) => {
            let failure = failure.context("Sanity check failed");
            assert(failure@ =~= seq!["Sanity check failed"@, kind_mismatch(input_kind, output_kind)->0]);
            return Err(failure);
        },
    }
    let processed = process(&input, &output, input_kind, walk, create_dir, convert);
    assert(process_outcome(walk, *create_dir, *convert, input, output@, input_kind, processed));
    match processed {
        Ok(done) => Ok(done),
        Err(inner) => Err(inner.context("Processing failed")),
    }
}

/// A tree in which the walk finds no comma-separated file is processed
/// with success: the batch has no job.
pub proof fn lemma_empty_tree_succeeds<
    W: FnOnce(&FilePath) -> Vec<WalkEntry>,
    D: Fn(&FilePath) -> ConversionOutcome,
    F: Fn(&ConversionJob) -> ConversionOutcome,
>(
    walk: W,
    create_dir: D,
    convert: F,
    input: FilePath,
    output: PathModel,
    input_kind: PathKind,
    outcome: ConversionOutcome,
)
    requires
        input_kind != PathKind::File,
        process_outcome(walk, create_dir, convert, input, output, input_kind, outcome),
        forall|entries: Vec<WalkEntry>, i: int|
            call_ensures(walk, (&input,), entries) && 0 <= i < entries.len() ==> !selected(
                Operation::TableToParquet,
                #[trigger] entries_of(entries@)[i],
            ),
    ensures
        outcome is Ok,
{
    let (entries, items) = choose|entries: Vec<WalkEntry>, items: Vec<PlannedJob>|
        #![trigger call_ensures(walk, (&input,), entries), batch_outcome(create_dir, convert, items@, outcome)]
        call_ensures(walk, (&input,), entries) && planned_of(items@) == plan_of(
            Operation::TableToParquet,
            input@,
            output,
            entries_of(entries@),
        ) && batch_outcome(create_dir, convert, items@, outcome);
    lemma_nothing_selected_nothing_planned(
        Operation::TableToParquet,
        input@,
        output,
        entries_of(entries@),
    );
    assert(planned_of(items@).len() == 0);
}

} // verus!
