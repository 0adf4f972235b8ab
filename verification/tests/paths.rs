use datatool::path::is_separator_free;
use datatool::path::last_dot_index;
use datatool::path::name_extension;
use datatool::path::name_with_extension;
use datatool::path::FilePath;

fn names(path: &FilePath) -> Vec<String> {
    (0..path.depth()).map(|i| path.part(i).unwrap()).collect()
}

#[test]
fn parse_and_render_round_trip() {
    let path = FilePath::parse("in/sub/b.csv");
    assert_eq!(path.depth(), 3);
    assert!(!path.is_absolute());
    assert_eq!(path.to_string(), "in/sub/b.csv");
    assert_eq!(FilePath::parse(&path.to_string()), path);
}

#[test]
fn parse_splits_at_separators() {
    let path = FilePath::parse("in/sub/b.csv");
    assert_eq!(names(&path), vec!["in", "sub", "b.csv"]);
    assert_eq!(path.part(3), None);
}

#[test]
fn parse_absolute_path() {
    let path = FilePath::parse("/data/in/a.csv");
    assert!(path.is_absolute());
    assert_eq!(names(&path), vec!["data", "in", "a.csv"]);
    assert_eq!(path.to_string(), "/data/in/a.csv");
}

#[test]
fn parse_drops_empty_names() {
    let path = FilePath::parse("in//sub/");
    assert_eq!(names(&path), vec!["in", "sub"]);
    assert_eq!(path.to_string(), "in/sub");
    assert_eq!(FilePath::parse("///a").to_string(), "/a");
}

#[test]
fn parse_empty_and_root() {
    let empty = FilePath::parse("");
    assert_eq!(empty.depth(), 0);
    assert!(!empty.is_absolute());
    assert_eq!(empty.to_string(), "");
    let root = FilePath::parse("/");
    assert_eq!(root.depth(), 0);
    assert!(root.is_absolute());
    assert_eq!(root.to_string(), "/");
}

#[test]
fn parse_keeps_characters_outside_ascii() {
    let path = FilePath::parse("données/été.csv");
    assert_eq!(names(&path), vec!["données", "été.csv"]);
    assert_eq!(path.extension(), Some("csv".to_string()));
    assert_eq!(path.to_string(), "données/été.csv");
}

#[test]
fn from_parts_checks_every_name() {
    let good = FilePath::from_parts(false, vec!["in".to_string(), "a.csv".to_string()]);
    assert_eq!(good, Some(FilePath::parse("in/a.csv")));
    assert_eq!(FilePath::from_parts(false, vec!["in".to_string(), "".to_string()]), None);
    assert_eq!(FilePath::from_parts(true, vec!["a/b".to_string()]), None);
    assert_eq!(FilePath::from_parts(true, vec![]), Some(FilePath::parse("/")));
}

#[test]
fn extension_is_what_follows_the_last_dot() {
    assert_eq!(FilePath::parse("in/a.csv").extension(), Some("csv".to_string()));
    assert_eq!(FilePath::parse("a.tar.gz").extension(), Some("gz".to_string()));
    assert_eq!(FilePath::parse("in.d/a").extension(), None);
    assert_eq!(FilePath::parse("a").extension(), None);
    assert_eq!(FilePath::parse("").extension(), None);
}

#[test]
fn extension_edge_cases() {
    assert_eq!(FilePath::parse(".bashrc").extension(), None);
    assert_eq!(FilePath::parse(".bashrc.bak").extension(), Some("bak".to_string()));
    assert_eq!(FilePath::parse("a.").extension(), Some("".to_string()));
    assert_eq!(FilePath::parse("a/..").extension(), None);
    assert_eq!(FilePath::parse("...").extension(), Some("".to_string()));
}

#[test]
fn name_operations() {
    assert_eq!(last_dot_index("a.b.c"), Some(3));
    assert_eq!(last_dot_index("abc"), None);
    assert_eq!(last_dot_index(""), None);
    assert_eq!(name_extension("b.csv"), Some("csv".to_string()));
    assert_eq!(name_extension(".."), None);
    assert_eq!(name_with_extension("b.csv", "parquet"), "b.parquet");
    assert_eq!(name_with_extension("b", "parquet"), "b.parquet");
    assert_eq!(name_with_extension(".hidden", "parquet"), ".hidden.parquet");
    assert_eq!(name_with_extension("b.csv", ""), "b");
    assert!(is_separator_free("parquet"));
    assert!(!is_separator_free("par/quet"));
}

#[test]
fn file_name_is_the_last_name() {
    assert_eq!(FilePath::parse("in/a.csv").file_name(), Some("a.csv".to_string()));
    assert_eq!(FilePath::parse("in/..").file_name(), None);
    assert_eq!(FilePath::parse("/").file_name(), None);
}

#[test]
fn with_extension_replaces_the_extension() {
    let path = FilePath::parse("out/sub/b.csv");
    assert_eq!(path.with_extension("parquet").unwrap().to_string(), "out/sub/b.parquet");
    assert_eq!(FilePath::parse("out/b").with_extension("parquet").unwrap().to_string(), "out/b.parquet");
    assert_eq!(
        FilePath::parse("a.tar.gz").with_extension("parquet").unwrap().to_string(),
        "a.tar.parquet"
    );
}

#[test]
fn with_extension_edge_cases() {
    assert_eq!(FilePath::parse("out/b.csv").with_extension("").unwrap().to_string(), "out/b");
    assert_eq!(FilePath::parse("out/..").with_extension("parquet").unwrap().to_string(), "out/..");
    assert_eq!(FilePath::parse("").with_extension("parquet").unwrap().to_string(), "");
    assert_eq!(FilePath::parse("out/b.csv").with_extension("a/b"), None);
}

#[test]
fn with_extension_then_extension() {
    let renamed = FilePath::parse("in/a.csv").with_extension("parquet").unwrap();
    assert_eq!(renamed.extension(), Some("parquet".to_string()));
    assert_eq!(renamed.parent(), FilePath::parse("in/a.csv").parent());
}

#[test]
fn strip_prefix_gives_the_relative_path() {
    let file = FilePath::parse("in/sub/b.csv");
    let rel = file.strip_prefix(&FilePath::parse("in")).unwrap();
    assert_eq!(rel.to_string(), "sub/b.csv");
    assert!(!rel.is_absolute());
    let abs = FilePath::parse("/data/in/a.csv");
    assert_eq!(abs.strip_prefix(&FilePath::parse("/data")).unwrap().to_string(), "in/a.csv");
    assert_eq!(file.strip_prefix(&file).unwrap().depth(), 0);
    assert_eq!(file.strip_prefix(&FilePath::parse("")).unwrap(), file);
}

#[test]
fn strip_prefix_refuses_what_is_no_prefix() {
    let file = FilePath::parse("in/sub/b.csv");
    assert_eq!(file.strip_prefix(&FilePath::parse("out")), None);
    assert_eq!(file.strip_prefix(&FilePath::parse("in/su")), None);
    assert_eq!(file.strip_prefix(&FilePath::parse("/in")), None);
    assert_eq!(file.strip_prefix(&FilePath::parse("in/sub/b.csv/c")), None);
    assert!(file.starts_with(&FilePath::parse("in/sub")));
    assert!(!file.starts_with(&FilePath::parse("sub")));
}

#[test]
fn join_appends_a_relative_path() {
    let out = FilePath::parse("out");
    assert_eq!(out.join(&FilePath::parse("sub/b.csv")).to_string(), "out/sub/b.csv");
    assert_eq!(FilePath::parse("/out").join(&FilePath::parse("a")).to_string(), "/out/a");
    assert_eq!(out.join(&FilePath::parse("")).to_string(), "out");
    assert_eq!(out.join(&FilePath::parse("/etc/a")).to_string(), "/etc/a");
}

#[test]
fn join_then_strip_prefix_gives_the_relative_path_back() {
    let base = FilePath::parse("/out/tree");
    let rel = FilePath::parse("sub/b.parquet");
    assert_eq!(base.join(&rel).strip_prefix(&base), Some(rel));
}

#[test]
fn strip_prefix_then_join_gives_the_path_back() {
    let base = FilePath::parse("in");
    let file = FilePath::parse("in/sub/b.csv");
    let rel = file.strip_prefix(&base).unwrap();
    assert_eq!(base.join(&rel), file);
}

#[test]
fn parent_drops_the_last_name() {
    assert_eq!(FilePath::parse("out/sub/b.parquet").parent().unwrap().to_string(), "out/sub");
    assert_eq!(FilePath::parse("b.parquet").parent().unwrap().to_string(), "");
    assert_eq!(FilePath::parse("/b.parquet").parent().unwrap().to_string(), "/");
    assert_eq!(FilePath::parse("").parent(), None);
    assert_eq!(FilePath::parse("/").parent(), None);
}

#[test]
fn same_as_compares_values() {
    let a = FilePath::parse("in//a.csv");
    assert!(a.same_as(&FilePath::parse("in/a.csv")));
    assert!(!a.same_as(&FilePath::parse("/in/a.csv")));
    assert!(!a.same_as(&FilePath::parse("in/a")));
    assert!(!a.same_as(&FilePath::parse("in")));
    assert_eq!(a.clone(), a);
}
