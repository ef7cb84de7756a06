use file_tag_manager::models::{File, FileStatus, FileType, Tag, TagType, WatchedDirectory};
use file_tag_manager::store::Database;

fn create_test_db() -> Database {
    Database::new()
}

fn make_file(path: &str, name: &str, ext: &str, size: u64, file_type: FileType) -> File {
    let now = chrono::Utc::now().timestamp();
    File {
        id: None,
        path: path.to_string(),
        name: name.to_string(),
        extension: ext.to_string(),
        size,
        file_type,
        created_at: now,
        modified_at: now,
        accessed_at: now,
        status: FileStatus::Active,
        indexed_at: now,
        metadata: None,
    }
}

fn make_tag(name: &str, display: &str, color: &str) -> Tag {
    Tag {
        id: None,
        name: name.to_string(),
        display_name: display.to_string(),
        tag_type: TagType::Custom,
        color: color.to_string(),
        icon: None,
        use_count: 0,
        created_at: chrono::Utc::now().timestamp(),
    }
}

#[test]
fn test_create_and_get_file() {
    let mut db = create_test_db();

    let file = make_file("/test/file.jpg", "file.jpg", "jpg", 1024, FileType::Image);
    let file_id = db.create_file(&file).unwrap();
    assert!(file_id > 0);

    let retrieved = db.get_file_by_id(file_id);
    assert!(retrieved.is_some());
    assert_eq!(retrieved.unwrap().path, "/test/file.jpg");
}

#[test]
fn test_create_and_get_tag() {
    let mut db = create_test_db();

    let tag = make_tag("test", "测试标签", "#FF0000");
    let tag_id = db.create_tag(&tag).unwrap();
    assert!(tag_id > 0);

    let all_tags = db.get_all_tags();
    assert!(!all_tags.is_empty());
    assert_eq!(all_tags.len(), 1);
}

#[test]
fn test_add_tag_to_file() {
    let mut db = create_test_db();

    let file = make_file("/test/file.txt", "file.txt", "txt", 100, FileType::Text);
    let file_id = db.create_file(&file).unwrap();

    db.add_tag_to_file_by_name(file_id, "文本", false).unwrap();

    let tags = db.get_tags_by_file(file_id);
    assert!(!tags.is_empty());
    assert_eq!(tags[0].name, "文本");
}

#[test]
fn test_duplicate_active_path_is_refused() {
    let mut db = create_test_db();
    let file = make_file("/test/a.txt", "a.txt", "txt", 1, FileType::Text);
    db.create_file(&file).unwrap();
    let second = db.create_file(&file);
    assert!(second.is_err());
}

#[test]
fn test_path_reusable_after_delete() {
    let mut db = create_test_db();
    let file = make_file("/test/a.txt", "a.txt", "txt", 1, FileType::Text);
    let id = db.create_file(&file).unwrap();
    db.update_file_status(id, FileStatus::Deleted).unwrap();
    let again = db.create_file(&file);
    assert!(again.is_ok());
}

#[test]
fn test_duplicate_tag_name_is_refused() {
    let mut db = create_test_db();
    db.create_tag(&make_tag("dup", "dup", "#000000")).unwrap();
    assert!(db.create_tag(&make_tag("dup", "other", "#FFFFFF")).is_err());
}

#[test]
fn test_use_count_never_negative() {
    let mut db = create_test_db();
    let file = make_file("/test/a.txt", "a.txt", "txt", 1, FileType::Text);
    let fid = db.create_file(&file).unwrap();
    let tid = db.create_tag(&make_tag("zero", "zero", "#000000")).unwrap();

    // The tag has never been associated: its use count is zero.
    let before = db.get_tag_by_name("zero").unwrap();
    assert_eq!(before.use_count, 0);

    // Removing a missing association leaves the count at zero, not -1.
    db.remove_tag_from_file(fid, tid).unwrap();
    let after = db.get_tag_by_name("zero").unwrap();
    assert_eq!(after.use_count, 0);
}

#[test]
fn test_use_count_up_and_down() {
    let mut db = create_test_db();
    let file = make_file("/test/a.txt", "a.txt", "txt", 1, FileType::Text);
    let fid = db.create_file(&file).unwrap();
    let tid = db.create_tag(&make_tag("t", "t", "#000000")).unwrap();

    db.add_tag_to_file(fid, tid, false).unwrap();
    assert_eq!(db.get_tag_by_name("t").unwrap().use_count, 1);

    db.remove_tag_from_file(fid, tid).unwrap();
    assert_eq!(db.get_tag_by_name("t").unwrap().use_count, 0);

    db.remove_tag_from_file(fid, tid).unwrap();
    assert_eq!(db.get_tag_by_name("t").unwrap().use_count, 0);
}

#[test]
fn test_by_name_provisions_system_tag() {
    // Auto-provisioning on first use: System type, display name equal
    // to the name, the default colour, and one recorded use.
    let mut db = create_test_db();
    let file = make_file("/test/a.txt", "a.txt", "txt", 1, FileType::Text);
    let fid = db.create_file(&file).unwrap();
    db.add_tag_to_file_by_name(fid, "fresh", true).unwrap();

    let tag = db.get_tag_by_name("fresh").unwrap();
    assert_eq!(tag.tag_type, TagType::System);
    assert_eq!(tag.display_name, "fresh");
    assert_eq!(tag.color, "#007ACC");
    assert_eq!(tag.use_count, 1);
    assert_eq!(db.get_all_tags().len(), 1);
    assert_eq!(db.file_tags.len(), 1);
    assert!(db.file_tags[0].is_auto);
}

#[test]
fn test_readding_association_does_not_duplicate() {
    let mut db = create_test_db();
    let file = make_file("/test/a.txt", "a.txt", "txt", 1, FileType::Text);
    let fid = db.create_file(&file).unwrap();
    db.add_tag_to_file_by_name(fid, "once", true).unwrap();
    db.add_tag_to_file_by_name(fid, "once", true).unwrap();
    let tags = db.get_tags_by_file(fid);
    assert_eq!(tags.len(), 1);
}

#[test]
fn test_batch_add_tags_skips_missing_names() {
    let mut db = create_test_db();
    let fid = db.create_file(&make_file("/b.txt", "b.txt", "txt", 1, FileType::Text)).unwrap();
    db.create_tag(&make_tag("known", "known", "#000000")).unwrap();

    let names = vec!["known".to_string(), "missing".to_string()];
    db.batch_add_tags(&[fid], &names).unwrap();

    let tags = db.get_tags_by_file(fid);
    assert_eq!(tags.len(), 1);
    assert_eq!(tags[0].name, "known");
    assert!(db.get_tag_by_name("missing").is_none());
}

#[test]
fn test_update_and_delete_tag() {
    let mut db = create_test_db();
    let tid = db.create_tag(&make_tag("t", "old", "#000000")).unwrap();
    db.update_tag(tid, "new", "#123456").unwrap();
    let t = db.get_tag_by_name("t").unwrap();
    assert_eq!(t.display_name, "new");
    assert_eq!(t.color, "#123456");

    db.delete_tag(tid).unwrap();
    assert!(db.get_tag_by_name("t").is_none());
}

#[test]
fn test_get_stats_counts() {
    let mut db = create_test_db();
    let id1 = db.create_file(&make_file("/a", "a", "", 1, FileType::Other)).unwrap();
    db.create_file(&make_file("/b", "b", "", 1, FileType::Other)).unwrap();
    db.update_file_status(id1, FileStatus::Deleted).unwrap();
    db.create_tag(&make_tag("t", "t", "#000000")).unwrap();
    db.create_watched_directory(&WatchedDirectory {
        id: None,
        path: "/w".to_string(),
        recursive: true,
        filters: None,
        enabled: true,
        created_at: 0,
        last_scanned_at: None,
    })
    .unwrap();

    let stats = db.get_stats().unwrap();
    assert_eq!(stats.total_files, 2);
    assert_eq!(stats.indexed_files, 1);
    assert_eq!(stats.total_tags, 1);
    assert_eq!(stats.watched_directories, 1);
    assert_eq!(db.get_file_count(), 1);
}

#[test]
fn test_watched_directory_lifecycle() {
    let mut db = create_test_db();
    let dir = WatchedDirectory {
        id: None,
        path: "/watched".to_string(),
        recursive: false,
        filters: None,
        enabled: true,
        created_at: 7,
        last_scanned_at: None,
    };
    let id = db.create_watched_directory(&dir).unwrap();
    assert_eq!(db.get_watched_directories().len(), 1);

    db.set_directory_enabled(id, false).unwrap();
    assert!(!db.get_watched_directories()[0].enabled);

    db.update_directory_scan_time(id).unwrap();
    assert!(db.get_watched_directories()[0].last_scanned_at.is_some());

    db.delete_watched_directory(id).unwrap();
    assert!(db.get_watched_directories().is_empty());
}

#[test]
fn test_exhausted_identifiers_are_an_error() {
    let mut db = create_test_db();
    db.next_file_id = i64::MAX;
    let denied = db.create_file(&make_file("/x", "x", "", 0, FileType::Other));
    assert!(denied.is_err());

    db.next_tag_id = i64::MAX;
    assert!(db.create_tag(&make_tag("t", "t", "#000000")).is_err());
}

#[test]
fn test_delete_file_removes_record() {
    let mut db = create_test_db();
    let id = db.create_file(&make_file("/x", "x", "", 0, FileType::Other)).unwrap();
    db.delete_file(id).unwrap();
    assert!(db.get_file_by_id(id).is_none());
    assert!(db.get_file_by_path("/x").is_none());
}
