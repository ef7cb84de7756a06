use file_tag_manager::event::FileEvent;
use file_tag_manager::models::{FileStatus, FileType};
use file_tag_manager::scanner::{DirectoryScanner, FileMeta, FsDir, FsNode, ScanConfig, ScanResult};
use file_tag_manager::store::Database;

fn meta(path: &str, size: u64) -> FileMeta {
    FileMeta { path: path.to_string(), size, created_ts: 10, modified_ts: 20, accessed_ts: 30 }
}

fn dir(path: &str, entries: Vec<FsNode>) -> FsDir {
    FsDir { path: path.to_string(), entries, read_error: None }
}

fn sample_tree() -> FsDir {
    dir(
        "/root",
        vec![
            FsNode::File(meta("/root/a.jpg", 100)),
            FsNode::File(meta("/root/b.txt", 200)),
            FsNode::Dir(dir("/root/sub", vec![FsNode::File(meta("/root/sub/c.mp3", 300))])),
        ],
    )
}

#[test]
fn test_scan_counts_and_records() {
    let mut scanner = DirectoryScanner::new(Database::new());
    let result = scanner.scan(&sample_tree()).unwrap();
    assert_eq!(result.scan_path, "/root");
    assert_eq!(result.scanned_files, 3);
    assert_eq!(result.added_files, 3);
    assert_eq!(result.updated_files, 0);
    assert_eq!(result.skipped_files, 0);
    assert!(!result.has_errors());
    assert_eq!(result.total_changes(), 3);

    let rec = scanner.db.get_file_by_path("/root/a.jpg").unwrap();
    assert_eq!(rec.file_type, FileType::Image);
    assert_eq!(rec.status, FileStatus::Active);
    assert_eq!(rec.name, "a.jpg");
    assert_eq!(rec.extension, "jpg");
    assert_eq!(rec.size, 100);
}

#[test]
fn test_second_scan_adds_nothing() {
    // Scanning the same unchanged tree twice: the second scan reports
    // zero additions for the already-indexed paths.
    let mut scanner = DirectoryScanner::new(Database::new());
    let tree = sample_tree();
    let first = scanner.scan(&tree).unwrap();
    assert_eq!(first.added_files, 3);

    let second = scanner.scan(&tree).unwrap();
    assert_eq!(second.added_files, 0);
    assert_eq!(second.updated_files, 3);
    assert_eq!(second.scanned_files, 3);
}

#[test]
fn test_hidden_directory_contributes_nothing() {
    // A directory whose name starts with a dot is skipped entirely,
    // regardless of its contents.
    let tree = dir(
        "/root/.hidden",
        vec![FsNode::File(meta("/root/.hidden/a.jpg", 1)), FsNode::File(
            meta("/root/.hidden/b.txt", 2),
        )],
    );
    let mut scanner = DirectoryScanner::new(Database::new());
    let result = scanner.scan(&tree).unwrap();
    assert_eq!(result.scanned_files, 0);
    assert_eq!(result.added_files, 0);
    assert!(scanner.db.get_file_by_path("/root/.hidden/a.jpg").is_none());
}

#[test]
fn test_exclude_pattern_skips_subtree() {
    let tree = dir(
        "/root",
        vec![
            FsNode::File(meta("/root/keep.txt", 1)),
            FsNode::Dir(dir(
                "/root/Target",
                vec![FsNode::File(meta("/root/Target/drop.txt", 2))],
            )),
        ],
    );
    let config = ScanConfig {
        recursive: true,
        extensions: None,
        exclude_patterns: Some(vec!["target".to_string()]),
        max_depth: None,
    };
    let mut scanner = DirectoryScanner::new(Database::new()).with_config(config);
    assert!(scanner.should_exclude("/root/Target"));
    assert!(!scanner.should_exclude("/root"));
    let result = scanner.scan(&tree).unwrap();
    assert_eq!(result.scanned_files, 1);
    assert!(scanner.db.get_file_by_path("/root/Target/drop.txt").is_none());
}

#[test]
fn test_extension_filter_skips_other_files() {
    let tree = dir(
        "/root",
        vec![FsNode::File(meta("/root/a.jpg", 1)), FsNode::File(meta("/root/b.txt", 2))],
    );
    let config = ScanConfig {
        recursive: true,
        extensions: Some(vec!["JPG".to_string()]),
        exclude_patterns: None,
        max_depth: None,
    };
    let mut scanner = DirectoryScanner::new(Database::new()).with_config(config);
    let result = scanner.scan(&tree).unwrap();
    assert_eq!(result.scanned_files, 1);
    assert_eq!(result.added_files, 1);
    assert!(scanner.db.get_file_by_path("/root/b.txt").is_none());
}

#[test]
fn test_max_depth_limits_recursion() {
    let tree = dir(
        "/root",
        vec![FsNode::Dir(dir(
            "/root/one",
            vec![FsNode::Dir(dir(
                "/root/one/two",
                vec![FsNode::File(meta("/root/one/two/deep.txt", 1))],
            ))],
        ))],
    );
    let config = ScanConfig {
        recursive: true,
        extensions: None,
        exclude_patterns: None,
        max_depth: Some(1),
    };
    let mut scanner = DirectoryScanner::new(Database::new()).with_config(config);
    let result = scanner.scan(&tree).unwrap();
    assert_eq!(result.scanned_files, 0);
}

#[test]
fn test_unreadable_entries_are_reported_not_fatal() {
    let tree = dir(
        "/root",
        vec![
            FsNode::Unreadable { path: "/root/locked".to_string(), message: "denied".to_string() },
            FsNode::File(meta("/root/ok.txt", 1)),
            FsNode::Dir(FsDir {
                path: "/root/broken".to_string(),
                entries: Vec::new(),
                read_error: Some("io".to_string()),
            }),
        ],
    );
    let mut scanner = DirectoryScanner::new(Database::new());
    let result = scanner.scan(&tree).unwrap();
    assert_eq!(result.scanned_files, 1);
    assert!(result.has_errors());
    assert_eq!(result.errors.len(), 2);
    assert_eq!(result.errors[0].0, "/root/locked");
    assert_eq!(result.errors[1].1, "io");
}

#[test]
fn test_unreadable_root_is_a_hard_error() {
    // Only the root itself failing to list propagates as an error.
    let tree = FsDir {
        path: "/root".to_string(),
        entries: Vec::new(),
        read_error: Some("permission denied".to_string()),
    };
    let mut scanner = DirectoryScanner::new(Database::new());
    assert!(scanner.scan(&tree).is_err());
}

#[test]
fn test_scan_result_accessors() {
    let mut result = ScanResult::new("/r".to_string());
    assert!(!result.has_errors());
    assert_eq!(result.total_changes(), 0);
    result.add_error("/r/x".to_string(), "oops".to_string());
    assert!(result.has_errors());
}

#[test]
fn test_apply_created_event_indexes_and_tags() {
    let mut db = Database::new();
    let event = FileEvent::Created { path: "/watched/new.jpg".to_string() };
    db.apply_event(&event, Some(512)).unwrap();

    let rec = db.get_file_by_path("/watched/new.jpg").unwrap();
    assert_eq!(rec.file_type, FileType::Image);
    assert_eq!(rec.size, 512);
    let tags = db.get_tags_by_file(rec.id.unwrap());
    assert!(tags.iter().any(|t| t.name == "图片"));
}

#[test]
fn test_apply_event_ignores_known_or_statless_paths() {
    let mut db = Database::new();
    let event = FileEvent::Modified { path: "/gone".to_string() };
    db.apply_event(&event, None).unwrap();
    assert!(db.get_file_by_path("/gone").is_none());

    db.apply_event(&FileEvent::Created { path: "/a".to_string() }, Some(1)).unwrap();
    let before = db.get_file_by_path("/a").unwrap();
    db.apply_event(&FileEvent::Modified { path: "/a".to_string() }, Some(999)).unwrap();
    let after = db.get_file_by_path("/a").unwrap();
    assert_eq!(before.size, after.size);
}

#[test]
fn test_apply_deleted_event_marks_record() {
    let mut db = Database::new();
    db.apply_event(&FileEvent::Created { path: "/a.txt".to_string() }, Some(1)).unwrap();
    db.apply_event(&FileEvent::Deleted { path: "/a.txt".to_string() }, None).unwrap();
    let rec = db.get_file_by_path("/a.txt").unwrap();
    assert_eq!(rec.status, FileStatus::Deleted);
}

#[test]
fn test_apply_moved_event_reindexes_under_new_path() {
    let mut db = Database::new();
    db.apply_event(&FileEvent::Created { path: "/old/name.txt".to_string() }, Some(7)).unwrap();
    let moved = FileEvent::Moved {
        from: "/old/name.txt".to_string(),
        to: "/new/name2.txt".to_string(),
    };
    db.apply_event(&moved, None).unwrap();
    assert!(db.get_file_by_path("/old/name.txt").is_none());
    let rec = db.get_file_by_path("/new/name2.txt").unwrap();
    assert_eq!(rec.size, 7);
    assert_eq!(rec.name, "name2.txt");
}

#[test]
fn test_scan_config_default() {
    let config = ScanConfig::default();
    assert!(config.recursive);
    assert!(config.extensions.is_none());
    assert!(config.exclude_patterns.is_none());
    assert!(config.max_depth.is_none());
}
