use datatool::engine::ConversionJob;
use datatool::engine::PlannedJob;
use datatool::path::FilePath;
use datatool::plan::plan_directory;
use datatool::plan::plan_file;
use datatool::plan::plan_single;
use datatool::plan::substitute;
use datatool::plan::WalkEntry;
use datatool::registry::Operation;

fn file(path: &str) -> WalkEntry {
    WalkEntry::Found { path: FilePath::parse(path), is_file: true }
}

fn directory(path: &str) -> WalkEntry {
    WalkEntry::Found { path: FilePath::parse(path), is_file: false }
}

fn ready(source: &str, destination: &str) -> PlannedJob {
    PlannedJob::Ready(ConversionJob {
        source: FilePath::parse(source),
        destination: FilePath::parse(destination),
    })
}

fn plan(input: &str, output: &str, entries: &Vec<WalkEntry>) -> Vec<PlannedJob> {
    plan_directory(
        Operation::TableToParquet,
        &FilePath::parse(input),
        &FilePath::parse(output),
        entries,
    )
}

#[test]
fn tree_is_mirrored_under_the_output_root() {
    let entries = vec![directory("in"), file("in/a.csv"), directory("in/sub"), file("in/sub/b.csv")];
    assert_eq!(
        plan("in", "out", &entries),
        vec![ready("in/a.csv", "out/a.parquet"), ready("in/sub/b.csv", "out/sub/b.parquet")]
    );
}

#[test]
fn destinations_keep_the_relative_paths_of_the_sources() {
    let input = FilePath::parse("/data/in");
    let output = FilePath::parse("out/tree");
    let entries = vec![file("/data/in/a.csv"), file("/data/in/x/y/z.csv"), file("/data/in/x/w.csv")];
    let items = plan_directory(Operation::TableToParquet, &input, &output, &entries);
    assert_eq!(items.len(), 3);
    for item in items.iter() {
        match item {
            PlannedJob::Ready(job) => {
                let source = job.source.strip_prefix(&input).unwrap();
                let destination = job.destination.strip_prefix(&output).unwrap();
                assert_eq!(destination, source.with_extension("parquet").unwrap());
            }
            PlannedJob::Misplaced(_) => panic!("every file lies under the input root"),
        }
    }
}

#[test]
fn empty_tree_has_an_empty_plan() {
    assert_eq!(plan("in", "out", &Vec::new()), Vec::new());
    assert_eq!(plan("in", "out", &vec![directory("in"), directory("in/sub")]), Vec::new());
}

#[test]
fn only_regular_files_with_the_source_extension_are_planned() {
    let entries = vec![
        file("in/a.txt"),
        directory("in/dir.csv"),
        file("in/b.csv"),
        file("in/c"),
        file("in/d.parquet"),
        file("in/.csv"),
        file("in/e.CSV"),
    ];
    assert_eq!(plan("in", "out", &entries), vec![ready("in/b.csv", "out/b.parquet")]);
}

#[test]
fn unreadable_entries_take_no_part() {
    let entries = vec![WalkEntry::Unreadable, file("in/a.csv"), WalkEntry::Unreadable];
    assert_eq!(plan("in", "out", &entries), vec![ready("in/a.csv", "out/a.parquet")]);
    assert_eq!(plan("in", "out", &vec![WalkEntry::Unreadable]), Vec::new());
}

#[test]
fn plan_follows_the_order_of_the_entries() {
    let entries = vec![file("in/z.csv"), file("in/a.csv"), file("in/m.csv")];
    assert_eq!(
        plan("in", "out", &entries),
        vec![
            ready("in/z.csv", "out/z.parquet"),
            ready("in/a.csv", "out/a.parquet"),
            ready("in/m.csv", "out/m.parquet"),
        ]
    );
}

#[test]
fn file_outside_the_input_root_is_misplaced() {
    let entries = vec![file("elsewhere/a.csv"), file("in/b.csv")];
    assert_eq!(
        plan("in", "out", &entries),
        vec![
            PlannedJob::Misplaced(FilePath::parse("elsewhere/a.csv")),
            ready("in/b.csv", "out/b.parquet"),
        ]
    );
}

#[test]
fn plan_of_one_file() {
    let item = plan_file(
        Operation::TableToParquet,
        &FilePath::parse("in"),
        &FilePath::parse("/out"),
        &FilePath::parse("in/sub/b.csv"),
    );
    assert_eq!(item, ready("in/sub/b.csv", "/out/sub/b.parquet"));
    let kept = plan_file(
        Operation::PointcloudConvert,
        &FilePath::parse("in"),
        &FilePath::parse("out"),
        &FilePath::parse("in/scan.pcd"),
    );
    assert_eq!(kept, ready("in/scan.pcd", "out/scan.pcd"));
}

#[test]
fn single_file_gets_the_mandated_extension() {
    let table = plan_single(
        Operation::TableToParquet,
        &FilePath::parse("a.csv"),
        &FilePath::parse("result/out.parquet"),
    );
    assert_eq!(table.source, FilePath::parse("a.csv"));
    assert_eq!(table.destination, FilePath::parse("result/out.parquet"));
    let renamed = plan_single(
        Operation::TableToParquet,
        &FilePath::parse("a.csv"),
        &FilePath::parse("result/out.bin"),
    );
    assert_eq!(renamed.destination, FilePath::parse("result/out.parquet"));
    let cloud = plan_single(
        Operation::PointcloudConvert,
        &FilePath::parse("a.pcd"),
        &FilePath::parse("out.las"),
    );
    assert_eq!(cloud.destination, FilePath::parse("out.las"));
}

#[test]
fn substitute_puts_the_mandated_extension() {
    assert_eq!(
        substitute(Operation::TableToParquet, &FilePath::parse("out/a.csv")),
        FilePath::parse("out/a.parquet")
    );
    assert_eq!(
        substitute(Operation::PointcloudConvert, &FilePath::parse("out/a.pcd")),
        FilePath::parse("out/a.pcd")
    );
}
