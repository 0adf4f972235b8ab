use datatool::commands::pointcloud::pointcloud_utils::extension;
use datatool::commands::pointcloud::pointcloud_utils::is_supported_extension;
use datatool::registry::can_read;
use datatool::registry::can_write;
use datatool::registry::canonical_extension;
use datatool::registry::is_supported;
use datatool::registry::lookup;
use datatool::registry::registry;
use datatool::registry::role_in;
use datatool::registry::ExtensionRule;
use datatool::registry::Operation;
use datatool::registry::Role;

#[test]
fn table_rules() {
    let rules = registry(Operation::TableToParquet);
    assert_eq!(
        rules,
        vec![
            ExtensionRule { extension: "csv".to_string(), role: Role::Readable },
            ExtensionRule { extension: "parquet".to_string(), role: Role::Writable },
        ]
    );
}

#[test]
fn pointcloud_rules() {
    let rules = registry(Operation::PointcloudConvert);
    assert_eq!(
        rules,
        vec![
            ExtensionRule { extension: "las".to_string(), role: Role::Both },
            ExtensionRule { extension: "laz".to_string(), role: Role::Both },
            ExtensionRule { extension: "pcd".to_string(), role: Role::Readable },
        ]
    );
}

#[test]
fn lookup_finds_the_role() {
    assert_eq!(lookup(Operation::TableToParquet, "csv"), Some(Role::Readable));
    assert_eq!(lookup(Operation::TableToParquet, "parquet"), Some(Role::Writable));
    assert_eq!(lookup(Operation::TableToParquet, "las"), None);
    assert_eq!(lookup(Operation::PointcloudConvert, "laz"), Some(Role::Both));
    assert_eq!(lookup(Operation::PointcloudConvert, "csv"), None);
    assert_eq!(lookup(Operation::PointcloudConvert, ""), None);
}

#[test]
fn lookup_matches_the_whole_extension_exactly() {
    assert_eq!(lookup(Operation::TableToParquet, "CSV"), None);
    assert_eq!(lookup(Operation::TableToParquet, "cs"), None);
    assert_eq!(lookup(Operation::TableToParquet, "csvx"), None);
}

#[test]
fn first_rule_for_an_extension_decides() {
    let rules = vec![
        ExtensionRule { extension: "a".to_string(), role: Role::Writable },
        ExtensionRule { extension: "b".to_string(), role: Role::Both },
        ExtensionRule { extension: "a".to_string(), role: Role::Readable },
    ];
    assert_eq!(role_in(&rules, "a"), Some(Role::Writable));
    assert_eq!(role_in(&rules, "b"), Some(Role::Both));
    assert_eq!(role_in(&rules, "c"), None);
    assert_eq!(role_in(&Vec::new(), "a"), None);
}

#[test]
fn readable_and_writable() {
    assert!(can_read(Operation::TableToParquet, "csv"));
    assert!(!can_write(Operation::TableToParquet, "csv"));
    assert!(!can_read(Operation::TableToParquet, "parquet"));
    assert!(can_write(Operation::TableToParquet, "parquet"));
    assert!(can_read(Operation::PointcloudConvert, "las"));
    assert!(can_write(Operation::PointcloudConvert, "las"));
    assert!(can_read(Operation::PointcloudConvert, "pcd"));
    assert!(!can_write(Operation::PointcloudConvert, "pcd"));
    assert!(!can_read(Operation::PointcloudConvert, "txt"));
    assert!(!can_write(Operation::PointcloudConvert, "txt"));
}

#[test]
fn supported_extensions() {
    assert!(is_supported(Operation::TableToParquet, "csv"));
    assert!(!is_supported(Operation::TableToParquet, "pcd"));
    assert!(is_supported_extension("las"));
    assert!(is_supported_extension("laz"));
    assert!(is_supported_extension("pcd"));
    assert!(!is_supported_extension("ply"));
    assert!(!is_supported_extension(""));
}

#[test]
fn canonical_extensions() {
    assert_eq!(canonical_extension(Operation::TableToParquet), Some("parquet"));
    assert_eq!(canonical_extension(Operation::PointcloudConvert), None);
}

#[test]
fn extension_of_a_path_text() {
    assert_eq!(extension("cloud.las"), "las");
    assert_eq!(extension("/data/scan.v2.laz"), "laz");
    assert_eq!(extension("cloud"), "");
    assert_eq!(extension("dir.d/cloud"), "");
    assert_eq!(extension(""), "");
}
