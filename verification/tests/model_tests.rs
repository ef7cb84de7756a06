use file_tag_manager::models::{File, FileStatus, FileType, SearchOperator, TagType};

fn sample_file(size: u64, file_type: FileType) -> File {
    let now = chrono::Utc::now().timestamp();
    File {
        id: None,
        path: "/test/file.jpg".to_string(),
        name: "file.jpg".to_string(),
        extension: "jpg".to_string(),
        size,
        file_type,
        created_at: now,
        modified_at: now,
        accessed_at: now,
        status: FileStatus::Active,
        indexed_at: now,
        metadata: None,
    }
}

#[test]
fn test_file_type_from_extension() {
    assert_eq!(FileType::from_extension("jpg"), FileType::Image);
    assert_eq!(FileType::from_extension("mp3"), FileType::Audio);
    assert_eq!(FileType::from_extension("mp4"), FileType::Video);
    assert_eq!(FileType::from_extension("txt"), FileType::Text);
    assert_eq!(FileType::from_extension("exe"), FileType::Binary);
    assert_eq!(FileType::from_extension("unknown"), FileType::Other);
}

#[test]
fn tests_test_file_type_from_extension() {
    assert_eq!(FileType::from_extension("jpg"), FileType::Image);
    assert_eq!(FileType::from_extension("mp3"), FileType::Audio);
    assert_eq!(FileType::from_extension("mp4"), FileType::Video);
    assert_eq!(FileType::from_extension("txt"), FileType::Text);
    assert_eq!(FileType::from_extension("exe"), FileType::Binary);
    assert_eq!(FileType::from_extension("unknown"), FileType::Other);
}

#[test]
fn test_file_type_from_extension_folds_case() {
    // Exercises the case-folding wrapper: if lowercasing handed its
    // argument back unchanged, "JPG" would fall through to Other.
    assert_eq!(FileType::from_extension("JPG"), FileType::Image);
    assert_eq!(FileType::from_extension("Mp4"), FileType::Video);
    assert_eq!(FileType::from_extension("TAR"), FileType::Binary);
}

#[test]
fn test_file_type_display_name() {
    assert_eq!(FileType::Image.display_name(), "图片");
    assert_eq!(FileType::Video.display_name(), "视频");
    assert_eq!(FileType::Other.display_name(), "其他");
}

#[test]
fn test_file_status_round_trip() {
    assert_eq!(FileStatus::Active.as_str(), "active");
    assert_eq!(FileStatus::Deleted.as_str(), "deleted");
    assert_eq!(FileStatus::Moved.as_str(), "moved");
    assert_eq!(FileStatus::from_str("deleted"), FileStatus::Deleted);
    assert_eq!(FileStatus::from_str("nonsense"), FileStatus::Active);
}

#[test]
fn test_tag_type_round_trip() {
    assert_eq!(TagType::System.as_str(), "system");
    assert_eq!(TagType::Custom.as_str(), "custom");
    assert_eq!(TagType::from_str("system"), TagType::System);
    assert_eq!(TagType::from_str("anything"), TagType::Custom);
}

#[test]
fn test_search_operator_as_string() {
    assert_eq!(SearchOperator::And.as_str(), "AND");
    assert_eq!(SearchOperator::Or.as_str(), "OR");
}

#[test]
fn test_file_clone_preserves_fields() {
    let f = sample_file(1024, FileType::Image);
    let g = f.clone();
    assert_eq!(g.path, "/test/file.jpg");
    assert_eq!(g.size, 1024);
    assert_eq!(g.file_type, FileType::Image);
}

#[test]
fn test_path_name_and_extension() {
    assert_eq!(file_tag_manager::paths::file_name_of("/a/b/file.tar.gz"), "file.tar.gz");
    assert_eq!(file_tag_manager::paths::extension_of("file.tar.gz"), "gz");
    assert_eq!(file_tag_manager::paths::extension_of("README"), "");
    assert_eq!(file_tag_manager::paths::extension_of(".bashrc"), "");
    assert_eq!(file_tag_manager::paths::file_name_of("noslash.txt"), "noslash.txt");
}

#[test]
fn test_text_contains_ignore_case() {
    assert!(file_tag_manager::text::contains_ci("/home/User/Downloads/x", "downloads"));
    assert!(!file_tag_manager::text::contains_ci("/home/user/music/x", "downloads"));
    assert!(file_tag_manager::text::eq_ci("JPG", "jpg"));
    assert!(!file_tag_manager::text::eq_ci("jpg", "png"));
    assert!(file_tag_manager::text::str_contains("abcdef", "cde"));
    assert!(!file_tag_manager::text::str_contains("abcdef", "ce"));
}
