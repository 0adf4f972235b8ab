use datatool::failure::Failure;
use datatool::path::FilePath;
use datatool::registry::Operation;
use datatool::utils::file_has_right_extension;
use datatool::utils::is_admissible;
use datatool::utils::perform_io_sanity_check;
use datatool::utils::PathKind;

#[test]
fn kinds_that_go_together() {
    assert_eq!(perform_io_sanity_check(PathKind::File, PathKind::File), Ok(()));
    assert_eq!(perform_io_sanity_check(PathKind::File, PathKind::Missing), Ok(()));
    assert_eq!(perform_io_sanity_check(PathKind::Directory, PathKind::Directory), Ok(()));
    assert_eq!(perform_io_sanity_check(PathKind::Directory, PathKind::Missing), Ok(()));
    assert_eq!(perform_io_sanity_check(PathKind::Missing, PathKind::Missing), Ok(()));
    assert_eq!(perform_io_sanity_check(PathKind::Missing, PathKind::File), Ok(()));
    assert_eq!(perform_io_sanity_check(PathKind::Missing, PathKind::Directory), Ok(()));
}

#[test]
fn file_into_directory_is_a_mismatch() {
    assert_eq!(
        perform_io_sanity_check(PathKind::File, PathKind::Directory),
        Err(Failure::new("Input is a file but output is a directory"))
    );
}

#[test]
fn directory_into_file_is_a_mismatch() {
    assert_eq!(
        perform_io_sanity_check(PathKind::Directory, PathKind::File),
        Err(Failure::new("Input is a directory but output is a file"))
    );
}

#[test]
fn admissible_sources() {
    assert!(is_admissible(Operation::TableToParquet, &FilePath::parse("in/a.csv")));
    assert!(!is_admissible(Operation::TableToParquet, &FilePath::parse("in/a.parquet")));
    assert!(!is_admissible(Operation::TableToParquet, &FilePath::parse("in/a")));
    assert!(!is_admissible(Operation::TableToParquet, &FilePath::parse("in/csv")));
    assert!(!is_admissible(Operation::TableToParquet, &FilePath::parse("in/.csv")));
    assert!(is_admissible(Operation::PointcloudConvert, &FilePath::parse("scan.pcd")));
}

#[test]
fn right_extension_passes() {
    assert_eq!(
        file_has_right_extension(&FilePath::parse("in/a.csv"), Operation::TableToParquet),
        Ok(())
    );
}

#[test]
fn wrong_extension_names_the_file() {
    assert_eq!(
        file_has_right_extension(&FilePath::parse("in/a.txt"), Operation::TableToParquet),
        Err(Failure::new("File does not have the right extension: \"in/a.txt\""))
    );
}
