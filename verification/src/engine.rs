//! The execution engine: one conversion per planned job, in parallel, with
//! the first failure that is met as the result of the batch.
//!
//! The engine cancels nothing. Once a job has failed no new job is started,
//! but a job that runs at that moment runs to its end.

use crate::failure::ConversionOutcome;
use crate::failure::Failure;
use crate::path::FilePath;
use crate::path::PathModel;
use crate::text::quote;
use crate::text::quoted;
use rayon::iter::IntoParallelRefIterator;
use rayon::iter::ParallelIterator;
use vstd::prelude::*;

verus! {

/// One unit of work: a source file and the file its conversion is written to.
#[derive(Debug, Clone, PartialEq, Eq)]
pub struct ConversionJob {
    /// The file to read.
    pub source: FilePath,
    /// The file to write.
    pub destination: FilePath,
}

/// The mathematical value of a job.
pub struct JobModel {
    pub source: PathModel,
    pub destination: PathModel,
}

impl View for ConversionJob {
    type V = JobModel;

    open spec fn view(&self) -> JobModel {
        JobModel { source: self.source@, destination: self.destination@ }
    }
}

/// What planning made of one matched file.
#[derive(Debug, Clone, PartialEq, Eq)]
pub enum PlannedJob {
    /// The file has a destination.
    Ready(ConversionJob),
    /// The file does not lie under the input root, so it has no destination.
    Misplaced(FilePath),
}

/// The mathematical value of a planned job.
pub enum PlannedModel {
    Ready(JobModel),
    Misplaced(PathModel),
}

impl View for PlannedJob {
    type V = PlannedModel;

    open spec fn view(&self) -> PlannedModel {
        match self {
            PlannedJob::Ready(job) => PlannedModel::Ready(job@),
            PlannedJob::Misplaced(file) => PlannedModel::Misplaced(file@),
        }
    }
}

/// The values of a list of planned jobs.
pub open spec fn planned_of(items: Seq<PlannedJob>) -> Seq<PlannedModel> {
    Seq::new(items.len(), |i: int| items[i]@)
}

/// The context that a failed conversion of `source` is reported under.
pub open spec fn process_context(source: PathModel) -> Seq<char> {
    "Failed to process file: "@ + quoted(source.render())
}

/// The context that a directory which could not be created is reported under.
pub open spec fn directory_context(directory: PathModel) -> Seq<char> {
    "Failed to create output directory: "@ + quoted(directory.render())
}

/// The cause chain of a file that does not lie under the input root.
pub open spec fn misplaced_causes(file: PathModel) -> Seq<Seq<char>> {
    seq!["Failed to strip prefix from path: "@ + quoted(file.render()), "prefix not found"@]
}

/// Whether `outcome` is what the conversion of `job` may end in: success
/// where `convert` succeeded on it, or what `convert` reported, put under
/// the context of the job's source.
pub open spec fn job_outcome<F: Fn(&ConversionJob) -> ConversionOutcome>(
    convert: F,
    job: ConversionJob,
    outcome: ConversionOutcome,
) -> bool {
    match outcome {
        Ok(_) => call_ensures(convert, (&job,), outcome),
        Err(failure) => exists|inner: Failure| #[trigger]
            call_ensures(convert, (&job,), Err(inner)) && failure@ == seq![
                process_context(job@.source),
            ] + inner@,
    }
}

/// Whether the directory that `destination` lies in is there: the
/// destination has no parent, or `create_dir` succeeded on its parent.
pub open spec fn directory_ready<D: Fn(&FilePath) -> ConversionOutcome>(
    create_dir: D,
    destination: PathModel,
) -> bool {
    destination.parent() is None || exists|parent: FilePath, made: ConversionOutcome|
        destination.parent() == Some(parent@) && made is Ok && #[trigger] call_ensures(
            create_dir,
            (&parent,),
            made,
        )
}

/// Whether `failure` is what `create_dir` reported on the parent of
/// `destination`, put under the context of that directory.
pub open spec fn directory_failed<D: Fn(&FilePath) -> ConversionOutcome>(
    create_dir: D,
    destination: PathModel,
    failure: Failure,
) -> bool {
    exists|parent: FilePath, inner: Failure|
        destination.parent() == Some(parent@) && #[trigger] call_ensures(
            create_dir,
            (&parent,),
            Err(inner),
        ) && failure@ == seq![directory_context(parent@)] + inner@
}

/// Whether `outcome` is what one item of a batch may end in. A misplaced
/// file fails with its own cause chain. A job fails where the directory of
/// its destination cannot be created; after that directory is there, it
/// ends as its conversion ends.
pub open spec fn item_outcome<
    D: Fn(&FilePath) -> ConversionOutcome,
    F: Fn(&ConversionJob) -> ConversionOutcome,
>(create_dir: D, convert: F, item: PlannedJob, outcome: ConversionOutcome) -> bool {
    match item {
        PlannedJob::Ready(job) => {
            ||| directory_ready(create_dir, job@.destination) && job_outcome(
                convert,
                job,
                outcome,
            )
            ||| outcome matches Err(failure) && directory_failed(
                create_dir,
                job@.destination,
                failure,
            )
        },
        PlannedJob::Misplaced(file) => match outcome {
            Ok(_) => false,
            Err(failure) => failure@ == misplaced_causes(file@),
        },
    }
}

/// Whether `create_dir` and `convert` may be called on every directory and job.
pub open spec fn callable<
    D: Fn(&FilePath) -> ConversionOutcome,
    F: Fn(&ConversionJob) -> ConversionOutcome,
>(create_dir: D, convert: F) -> bool {
    &&& forall|directory: FilePath| call_requires(create_dir, (&directory,))
    &&& forall|job: ConversionJob| call_requires(convert, (&job,))
}

/// Converts one job, and puts a failure under the context of the job's source.
pub fn run_job<F: Fn(&ConversionJob) -> ConversionOutcome>(convert: &F, job: &ConversionJob) -> (r:
    ConversionOutcome)
    requires
        call_requires(*convert, (job,)),
    ensures
        job_outcome(*convert, *job, r),
{
    let converted = convert(job);
    match converted {
        Ok(done) => Ok(done),
        Err(inner) => {
            let mut message = String::from_str("Failed to process file: ");
            let source = job.source.to_string();
            let shown = quote(source.as_str());
            message.append(shown.as_str());
            let ghost cause = inner;
            let failure = inner.context(message.as_str());
            assert(call_ensures(*convert, (job,), Err(cause)));
            Err(failure)
        },
    }
}

/// Runs one item of a batch: reports a misplaced file; for a job, has the
/// directory of its destination created, then converts it.
pub fn run_item<D: Fn(&FilePath) -> ConversionOutcome, F: Fn(&ConversionJob) -> ConversionOutcome>(
    create_dir: &D,
    convert: &F,
    item: &PlannedJob,
) -> (r: ConversionOutcome)
    requires
        callable(*create_dir, *convert),
    ensures
        item_outcome(*create_dir, *convert, *item, r),
{
    match item {
        PlannedJob::Ready(job) => {
            match job.destination.parent() {
                Some(parent) => {
                    let made = create_dir(&parent);
                    match made {
                        Ok(_) => {
                            assert(call_ensures(*create_dir, (&parent,), made));
                        },
                        Err(inner) => {
                            let mut message = String::from_str(
                                "Failed to create output directory: ",
                            );
                            let directory = parent.to_string();
                            let shown = quote(directory.as_str());
                            message.append(shown.as_str());
                            let ghost cause = inner;
                            let failure = inner.context(message.as_str());
                            assert(call_ensures(*create_dir, (&parent,), Err(cause)));
                            return Err(failure);
                        },
                    }
                },
                None => {},
            }
            run_job(convert, job)
        },
        PlannedJob::Misplaced(file) => {
            let mut message = String::from_str("Failed to strip prefix from path: ");
            let path = file.to_string();
            let shown = quote(path.as_str());
            message.append(shown.as_str());
            let failure = Failure::new("prefix not found").context(message.as_str());
            assert(failure@ =~= misplaced_causes(file@));
            Err(failure)
        },
    }
}

/// Whether `outcome` is what a batch of `items` may end in: success only
/// where every item succeeded, and else the failure of one of the items.
pub open spec fn batch_outcome<
    D: Fn(&FilePath) -> ConversionOutcome,
    F: Fn(&ConversionJob) -> ConversionOutcome,
>(create_dir: D, convert: F, items: Seq<PlannedJob>, outcome: ConversionOutcome) -> bool {
    &&& outcome is Ok ==> forall|i: int|
        0 <= i < items.len() ==> item_outcome(create_dir, convert, #[trigger] items[i], outcome)
    &&& outcome is Err ==> exists|i: int|
        0 <= i < items.len() && item_outcome(create_dir, convert, #[trigger] items[i], outcome)
}

/// Calls rayon's `try_for_each` on the parallel iterator over `items`, with
/// [`run_item`] as the operation. As rayon documents it: the result is `Ok`
/// only after the operation returned `Ok` on every item, and an `Err` is the
/// value that the operation returned on one of the items; which one, where
/// several fail, is not fixed.
#[verifier::external_body]
fn par_try_for_each<D, F>(items: &Vec<PlannedJob>, create_dir: &D, convert: &F) -> (r:
    ConversionOutcome) where
    D: Fn(&FilePath) -> ConversionOutcome + Sync + Send,
    F: Fn(&ConversionJob) -> ConversionOutcome + Sync + Send,

    requires
        callable(*create_dir, *convert),
    ensures
        batch_outcome(*create_dir, *convert, items@, r),
{
    items.par_iter().try_for_each(|item| run_item(create_dir, convert, item))
}

/// Runs every item of a batch, in parallel and in no fixed order.
///
/// The batch succeeds only if every item did: then each job was converted
/// with success and no file was misplaced. It fails with the failure of one
/// of its items. A batch without items succeeds.
pub fn run_batch<D, F>(items: &Vec<PlannedJob>, create_dir: &D, convert: &F) -> (r:
    ConversionOutcome) where
    D: Fn(&FilePath) -> ConversionOutcome + Sync + Send,
    F: Fn(&ConversionJob) -> ConversionOutcome + Sync + Send,

    requires
        callable(*create_dir, *convert),
    ensures
        batch_outcome(*create_dir, *convert, items@, r),
        items.len() == 0 ==> r is Ok,
{
    par_try_for_each(items, create_dir, convert)
}

/// A batch with an item that cannot succeed fails.
pub proof fn lemma_one_failure_fails_batch<
    D: Fn(&FilePath) -> ConversionOutcome,
    F: Fn(&ConversionJob) -> ConversionOutcome,
>(create_dir: D, convert: F, items: Seq<PlannedJob>, outcome: ConversionOutcome, failing: int)
    requires
        batch_outcome(create_dir, convert, items, outcome),
        0 <= failing < items.len(),
        forall|done: ConversionOutcome|
            done is Ok ==> !item_outcome(create_dir, convert, items[failing], done),
    ensures
        outcome is Err,
{
    if outcome is Ok {
        assert(item_outcome(create_dir, convert, items[failing], outcome));
    }
}

/// A batch without items succeeds.
pub proof fn lemma_empty_batch_succeeds<
    D: Fn(&FilePath) -> ConversionOutcome,
    F: Fn(&ConversionJob) -> ConversionOutcome,
>(create_dir: D, convert: F, items: Seq<PlannedJob>, outcome: ConversionOutcome)
    requires
        batch_outcome(create_dir, convert, items, outcome),
        items.len() == 0,
    ensures
        outcome is Ok,
{
}

} // verus!
