//! From the entries of a directory tree to the jobs of a batch.
//!
//! A job is planned for every regular file that the operation takes as a
//! source. Its destination lies under the output root where the file lies
//! under the input root, with the extension that the operation mandates.

use crate::engine::ConversionJob;
use crate::engine::JobModel;
use crate::engine::PlannedJob;
use crate::engine::PlannedModel;
use crate::engine::planned_of;
use crate::path::FilePath;
use crate::path::PathModel;
use crate::path::separator_free;
use crate::registry::canonical_extension;
use crate::registry::canonical_extension_of;
use crate::registry::Operation;
use crate::utils::admissible;
use crate::utils::is_admissible;
use vstd::prelude::*;

verus! {

/// What walking a directory tree met at one step.
#[derive(Debug, Clone, PartialEq, Eq)]
pub enum WalkEntry {
    /// An entry of the tree.
    Found {
        /// Where the entry lies.
        path: FilePath,
        /// Whether it is a regular file.
        is_file: bool,
    },
    /// An entry that could not be read. It takes no part in the batch.
    Unreadable,
}

/// The mathematical value of an entry.
pub enum EntryModel {
    Found { path: PathModel, is_file: bool },
    Unreadable,
}

impl View for WalkEntry {
    type V = EntryModel;

    open spec fn view(&self) -> EntryModel {
        match self {
            WalkEntry::Found { path, is_file } => EntryModel::Found {
                path: path@,
                is_file: *is_file,
            },
            WalkEntry::Unreadable => EntryModel::Unreadable,
        }
    }
}

/// The values of a list of entries.
pub open spec fn entries_of(entries: Seq<WalkEntry>) -> Seq<EntryModel> {
    Seq::new(entries.len(), |i: int| entries[i]@)
}

/// Whether a job is planned for the entry: it could be read, and is a
/// regular file that `op` takes as a source.
pub open spec fn selected(op: Operation, entry: EntryModel) -> bool {
    match entry {
        EntryModel::Found { path, is_file } => is_file && admissible(op, path),
        EntryModel::Unreadable => false,
    }
}

/// `path` with the extension that `op` mandates, or as it is where `op`
/// mandates none.
pub open spec fn substituted(op: Operation, path: PathModel) -> PathModel {
    match canonical_extension_of(op) {
        Some(ext) => path.with_extension(ext),
        None => path,
    }
}

/// Where the conversion of `file` is written: below `output_root` as `file`
/// lies below `input_root`. `None` where `file` does not lie below `input_root`.
pub open spec fn mirrored(
    op: Operation,
    input_root: PathModel,
    output_root: PathModel,
    file: PathModel,
) -> Option<PathModel> {
    match file.strip_prefix(input_root) {
        Some(rel) => Some(substituted(op, output_root.join(rel))),
        None => None,
    }
}

/// What is planned for a matched file.
pub open spec fn planned(
    op: Operation,
    input_root: PathModel,
    output_root: PathModel,
    file: PathModel,
) -> PlannedModel {
    match mirrored(op, input_root, output_root, file) {
        Some(destination) => PlannedModel::Ready(JobModel { source: file, destination }),
        None => PlannedModel::Misplaced(file),
    }
}

/// The plan of a batch: one item for each selected entry, in the order of the entries.
pub open spec fn plan_of(
    op: Operation,
    input_root: PathModel,
    output_root: PathModel,
    entries: Seq<EntryModel>,
) -> Seq<PlannedModel>
    decreases entries.len(),
{
    if entries.len() == 0 {
        Seq::empty()
    } else {
        let front = plan_of(op, input_root, output_root, entries.drop_last());
        if selected(op, entries.last()) {
            front.push(planned(op, input_root, output_root, entries.last()->path))
        } else {
            front
        }
    }
}

/// The one job of a conversion from file to file.
pub open spec fn single_job(op: Operation, input: PathModel, output: PathModel) -> JobModel {
    JobModel { source: input, destination: substituted(op, output) }
}

/// `path` with the extension that `op` mandates.
pub fn substitute(op: Operation, path: &FilePath) -> (r: FilePath)
    ensures
        r@ == substituted(op, path@),
{
    match canonical_extension(op) {
        Some(ext) => {
            proof {
                reveal_strlit("parquet");
                assert(separator_free(ext@));
            }
            match path.with_extension(ext) {
                Some(renamed) => renamed,
                None => path.clone(),
            }
        },
        None => path.clone(),
    }
}

/// Plans the conversion of one matched file.
pub fn plan_file(op: Operation, input_root: &FilePath, output_root: &FilePath, file: &FilePath) -> (r:
    PlannedJob)
    ensures
        r@ == planned(op, input_root@, output_root@, file@),
{
    match file.strip_prefix(input_root) {
        Some(rel) => {
            let joined = output_root.join(&rel);
            let destination = substitute(op, &joined);
            PlannedJob::Ready(ConversionJob { source: file.clone(), destination })
        },
        None => PlannedJob::Misplaced(file.clone()),
    }
}

/// Plans a batch from the entries of the tree under `input_root`.
pub fn plan_directory(
    op: Operation,
    input_root: &FilePath,
    output_root: &FilePath,
    entries: &Vec<WalkEntry>,
) -> (r: Vec<PlannedJob>)
    ensures
        planned_of(r@) == plan_of(op, input_root@, output_root@, entries_of(entries@)),
{
    let mut items: Vec<PlannedJob> = Vec::new();
    let mut i: usize = 0;
    while i < entries.len()
        invariant
            i <= entries.len(),
            planned_of(items@) == plan_of(
                op,
                input_root@,
                output_root@,
                entries_of(entries@).take(i as int),
            ),
        decreases entries.len() - i,
    {
        let ghost seen = entries_of(entries@).take(i + 1);
        assert(seen.drop_last() == entries_of(entries@).take(i as int));
        assert(seen.last() == entries@[i as int]@);
        match &entries[i] {
            WalkEntry::Found { path, is_file } => {
                if *is_file && is_admissible(op, path) {
                    let ghost before = items@;
                    let item = plan_file(op, input_root, output_root, path);
                    items.push(item);
                    assert(planned_of(items@) == planned_of(before).push(item@));
                }
            },
            WalkEntry::Unreadable => {},
        }
        i += 1;
    }
    assert(entries_of(entries@).take(i as int) == entries_of(entries@));
    items
}

/// Plans the one job of a conversion from file to file.
pub fn plan_single(op: Operation, input: &FilePath, output: &FilePath) -> (r: ConversionJob)
    ensures
        r@ == single_job(op, input@, output@),
{
    ConversionJob { source: input.clone(), destination: substitute(op, output) }
}

/// A tree without a selected entry has an empty plan.
pub proof fn lemma_nothing_selected_nothing_planned(
    op: Operation,
    input_root: PathModel,
    output_root: PathModel,
    entries: Seq<EntryModel>,
)
    requires
        forall|i: int| 0 <= i < entries.len() ==> !selected(op, #[trigger] entries[i]),
    ensures
        plan_of(op, input_root, output_root, entries).len() == 0,
    decreases entries.len(),
{
    if entries.len() > 0 {
        let front = entries.drop_last();
        assert forall|i: int| 0 <= i < front.len() implies !selected(op, #[trigger] front[i]) by {
            assert(front[i] == entries[i]);
        }
        lemma_nothing_selected_nothing_planned(op, input_root, output_root, front);
        assert(!selected(op, entries[entries.len() - 1]));
    }
}

/// Whether `item` is what is planned for one of the selected entries.
pub open spec fn planned_from(
    op: Operation,
    input_root: PathModel,
    output_root: PathModel,
    entries: Seq<EntryModel>,
    item: PlannedModel,
) -> bool {
    exists|i: int|
        0 <= i < entries.len() && selected(op, #[trigger] entries[i]) && item == planned(
            op,
            input_root,
            output_root,
            entries[i]->path,
        )
}

/// The plan holds an item for a file exactly where an entry with that file is selected.
pub proof fn lemma_plan_covers_selected(
    op: Operation,
    input_root: PathModel,
    output_root: PathModel,
    entries: Seq<EntryModel>,
)
    ensures
        forall|i: int|
            0 <= i < entries.len() && selected(op, #[trigger] entries[i]) ==> plan_of(
                op,
                input_root,
                output_root,
                entries,
            ).contains(planned(op, input_root, output_root, entries[i]->path)),
        forall|j: int|
            0 <= j < plan_of(op, input_root, output_root, entries).len() ==> planned_from(
                op,
                input_root,
                output_root,
                entries,
                #[trigger] plan_of(op, input_root, output_root, entries)[j],
            ),
    decreases entries.len(),
{
    let plan = plan_of(op, input_root, output_root, entries);
    if entries.len() > 0 {
        let front = entries.drop_last();
        let last = entries.last();
        let front_plan = plan_of(op, input_root, output_root, front);
        lemma_plan_covers_selected(op, input_root, output_root, front);
        assert forall|i: int| 0 <= i < entries.len() && selected(op, #[trigger] entries[i])
            implies plan.contains(planned(op, input_root, output_root, entries[i]->path)) by {
            if i < front.len() {
                assert(front[i] == entries[i]);
                let item = planned(op, input_root, output_root, front[i]->path);
                assert(front_plan.contains(item));
                let j = choose|j: int| 0 <= j < front_plan.len() && front_plan[j] == item;
                assert(plan[j] == item);
            } else {
                assert(plan[plan.len() - 1] == planned(op, input_root, output_root, last->path));
            }
        }
        assert forall|j: int| 0 <= j < plan.len() implies planned_from(
            op,
            input_root,
            output_root,
            entries,
            #[trigger] plan[j],
        ) by {
            if j < front_plan.len() {
                assert(plan[j] == front_plan[j]);
                assert(planned_from(op, input_root, output_root, front, front_plan[j]));
                let i = choose|i: int|
                    0 <= i < front.len() && selected(op, #[trigger] front[i]) && front_plan[j]
                        == planned(op, input_root, output_root, front[i]->path);
                assert(front[i] == entries[i]);
            } else {
                assert(entries[entries.len() - 1] == last);
            }
        }
    }
}

/// A file that lies strictly below the input root is written to the output
/// root at the same relative path, but for the extension that the operation
/// mandates.
pub proof fn lemma_mirrored_relative(
    op: Operation,
    input_root: PathModel,
    output_root: PathModel,
    file: PathModel,
)
    requires
        file.starts_with(input_root),
        file.parts.len() > input_root.parts.len(),
    ensures
        mirrored(op, input_root, output_root, file) is Some,
        mirrored(op, input_root, output_root, file)->0.strip_prefix(output_root) == Some(
            substituted(op, file.strip_prefix(input_root)->0),
        ),
{
    let rel = file.strip_prefix(input_root)->0;
    let joined = output_root.join(rel);
    let n = output_root.parts.len() as int;
    assert(joined.parts.take(n) == output_root.parts);
    assert(joined.parts.skip(n) == rel.parts);
    assert(joined.parts.last() == rel.parts.last());
    match canonical_extension_of(op) {
        Some(ext) => {
            if joined.file_name() is Some {
                let renamed = crate::path::replace_extension(rel.parts.last(), ext);
                let target = joined.with_extension(ext);
                assert(joined.parts.drop_last() == output_root.parts + rel.parts.drop_last());
                assert(target.parts == output_root.parts + rel.parts.drop_last().push(renamed));
                assert(target.parts.take(n) == output_root.parts);
                assert(target.parts.skip(n) == rel.parts.drop_last().push(renamed));
            }
        },
        None => {},
    }
}

/// The relative paths of the destinations of a plan.
pub open spec fn destinations_below(output_root: PathModel, plan: Seq<PlannedModel>) -> Set<
    PathModel,
> {
    Set::new(
        |rel: PathModel|
            exists|j: int|
                0 <= j < plan.len() && (#[trigger] plan[j] matches PlannedModel::Ready(job)
                    && job.destination.strip_prefix(output_root) == Some(rel)),
    )
}

/// The relative paths of the selected files of a tree.
pub open spec fn sources_below(op: Operation, input_root: PathModel, entries: Seq<EntryModel>) -> Set<
    PathModel,
> {
    Set::new(
        |rel: PathModel|
            exists|i: int|
                0 <= i < entries.len() && selected(op, #[trigger] entries[i])
                    && entries[i]->path.strip_prefix(input_root) == Some(rel),
    )
}

/// The output tree mirrors the input tree: where every selected file lies
/// strictly below the input root, the relative paths of the destinations are
/// the relative paths of the selected files, each with the extension that
/// the operation mandates.
pub proof fn lemma_plan_mirrors_tree(
    op: Operation,
    input_root: PathModel,
    output_root: PathModel,
    entries: Seq<EntryModel>,
)
    requires
        forall|i: int|
            0 <= i < entries.len() && selected(op, #[trigger] entries[i])
                ==> entries[i]->path.starts_with(input_root) && entries[i]->path.parts.len()
                > input_root.parts.len(),
    ensures
        destinations_below(output_root, plan_of(op, input_root, output_root, entries))
            == sources_below(op, input_root, entries).map(|rel: PathModel| substituted(op, rel)),
{
    let plan = plan_of(op, input_root, output_root, entries);
    let left = destinations_below(output_root, plan);
    let sources = sources_below(op, input_root, entries);
    let right = sources.map(|rel: PathModel| substituted(op, rel));
    lemma_plan_covers_selected(op, input_root, output_root, entries);
    assert forall|rel: PathModel| left.contains(rel) implies right.contains(rel) by {
        let j = choose|j: int|
            0 <= j < plan.len() && (#[trigger] plan[j] matches PlannedModel::Ready(job)
                && job.destination.strip_prefix(output_root) == Some(rel));
        assert(planned_from(op, input_root, output_root, entries, plan[j]));
        let i = choose|i: int|
            0 <= i < entries.len() && selected(op, #[trigger] entries[i]) && plan[j] == planned(
                op,
                input_root,
                output_root,
                entries[i]->path,
            );
        lemma_mirrored_relative(op, input_root, output_root, entries[i]->path);
        let source = entries[i]->path.strip_prefix(input_root)->0;
        assert(sources.contains(source));
        assert(rel == substituted(op, source));
    }
    assert forall|rel: PathModel| right.contains(rel) implies left.contains(rel) by {
        let source = choose|source: PathModel|
            sources.contains(source) && rel == substituted(op, source);
        let i = choose|i: int|
            0 <= i < entries.len() && selected(op, #[trigger] entries[i])
                && entries[i]->path.strip_prefix(input_root) == Some(source);
        lemma_mirrored_relative(op, input_root, output_root, entries[i]->path);
        let item = planned(op, input_root, output_root, entries[i]->path);
        assert(plan.contains(item));
        let j = choose|j: int| 0 <= j < plan.len() && plan[j] == item;
        assert(plan[j] matches PlannedModel::Ready(job) && job.destination.strip_prefix(
            output_root,
        ) == Some(rel));
    }
    assert(left =~= right);
}

} // verus!
