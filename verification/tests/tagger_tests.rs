use file_tag_manager::models::{File, FileStatus, FileType};
use file_tag_manager::rules::{TagCondition, TagRule};
use file_tag_manager::store::Database;
use file_tag_manager::tagger::{AutoTagger, TagGenerator};
use file_tag_manager::time::{DateContext, DateParts};

fn create_test_file(size: u64, file_type: FileType) -> File {
    let now = chrono::Utc::now().timestamp();
    File {
        id: None,
        path: "/test/file.jpg".to_string(),
        name: "file.jpg".to_string(),
        extension: "jpg".to_string(),
        size,
        file_type,
        created_at: now,
        modified_at: now,
        accessed_at: now,
        status: FileStatus::Active,
        indexed_at: now,
        metadata: None,
    }
}

#[test]
fn test_generate_tags_for_image() {
    let tagger = AutoTagger::new();
    let file = create_test_file(1024 * 1024, FileType::Image);
    let tags = tagger.generate_tags(&file);

    assert!(tags.contains(&"图片".to_string()));
}

#[test]
fn test_small_file_tag() {
    let tagger = AutoTagger::new();
    let file = create_test_file(5 * 1024, FileType::Image);
    let tags = tagger.generate_tags(&file);

    assert!(tags.contains(&"小文件".to_string()));
}

#[test]
fn test_large_file_tag() {
    let tagger = AutoTagger::new();
    let file = create_test_file(200 * 1024 * 1024, FileType::Video);
    let tags = tagger.generate_tags(&file);

    assert!(tags.contains(&"大文件".to_string()));
    assert!(tags.contains(&"视频".to_string()));
}

#[test]
fn test_today_file_tag() {
    let tagger = AutoTagger::new();
    let mut file = create_test_file(1024, FileType::Text);
    file.modified_at = chrono::Utc::now().timestamp();

    let tags = tagger.generate_tags(&file);
    assert!(tags.contains(&"今日文件".to_string()));
}

#[test]
fn test_large_video_matches_both_rules() {
    // A video of 200 MiB matches the large-file rule and the video type
    // rule; the generated set contains both names, whatever the order.
    let tagger = AutoTagger::new();
    let file = create_test_file(200 * 1024 * 1024, FileType::Video);
    let tags = tagger.generate_tags(&file);
    let both = ["大文件".to_string(), "视频".to_string()];
    assert!(both.iter().all(|name| tags.contains(name)));
}

fn plain_context() -> DateContext {
    let now = DateParts { ts: 1_000_000_000, year: 2001, month: 9, day: 9, weekday_from_monday: 6 };
    let yesterday =
        DateParts { ts: 1_000_000_000 - 86400, year: 2001, month: 9, day: 8, weekday_from_monday: 5 };
    DateContext { now, yesterday: Some(yesterday) }
}

#[test]
fn test_size_rule_max_bound_is_inclusive() {
    // A size rule with only a maximum accepts every size up to and
    // including the bound, and rejects anything above it.
    let rule = TagRule {
        name: "bounded".to_string(),
        condition: TagCondition::FileSize { min: None, max: Some(4096) },
    };
    let ctx = plain_context();
    let at_bound = create_test_file(4096, FileType::Other);
    let above = create_test_file(4097, FileType::Other);
    let below = create_test_file(0, FileType::Other);
    assert!(rule.matches_at(&at_bound, &None, &ctx));
    assert!(!rule.matches_at(&above, &None, &ctx));
    assert!(rule.matches_at(&below, &None, &ctx));
}

#[test]
fn test_path_rule_is_case_insensitive() {
    let rule = TagRule {
        name: "下载".to_string(),
        condition: TagCondition::PathContains("downloads".to_string()),
    };
    let ctx = plain_context();
    let mut file = create_test_file(1, FileType::Other);
    file.path = "/home/User/DOWNLOADS/file.bin".to_string();
    assert!(rule.matches_at(&file, &None, &ctx));
}

#[test]
fn test_extension_rule_is_case_insensitive() {
    let rule = TagRule {
        name: "raw".to_string(),
        condition: TagCondition::Extension(vec!["CR2".to_string()]),
    };
    let ctx = plain_context();
    let mut file = create_test_file(1, FileType::Other);
    file.extension = "cr2".to_string();
    assert!(rule.matches_at(&file, &None, &ctx));
}

#[test]
fn test_add_and_remove_rule() {
    let mut tagger = AutoTagger::with_rules(Vec::new());
    assert_eq!(tagger.rules().len(), 0);
    tagger.add_rule(TagRule {
        name: "one".to_string(),
        condition: TagCondition::NameContains("x".to_string()),
    });
    tagger.add_rule(TagRule {
        name: "two".to_string(),
        condition: TagCondition::NameContains("y".to_string()),
    });
    assert_eq!(tagger.rules().len(), 2);
    tagger.remove_rule("one");
    assert_eq!(tagger.rules().len(), 1);
    assert_eq!(tagger.rules()[0].name, "two");

    tagger.reset_to_default();
    assert_eq!(tagger.rules().len(), 16);
}

#[test]
fn test_process_file_persists_auto_tags() {
    let mut db = Database::new();
    let mut file = create_test_file(1024 * 1024, FileType::Image);
    let id = db.create_file(&file).unwrap();
    file.id = Some(id);

    let mut generator = TagGenerator::new(db);
    let added = generator.process_file(&file).unwrap();
    assert!(added > 0);

    let tags = generator.db.get_tags_by_file(id);
    assert!(tags.iter().any(|t| t.name == "图片"));
}

#[test]
fn test_process_file_without_id_does_nothing() {
    let db = Database::new();
    let file = create_test_file(1, FileType::Other);
    let mut generator = TagGenerator::new(db);
    assert_eq!(generator.process_file(&file).unwrap(), 0);
}

#[test]
fn test_process_file_continues_past_failures() {
    // With tag identifiers exhausted, names needing a fresh tag fail,
    // but names whose tag already exists are still associated, and the
    // failure is reported afterwards.
    let mut db = Database::new();
    let mut file = create_test_file(1024 * 1024, FileType::Image);
    let id = db.create_file(&file).unwrap();
    file.id = Some(id);
    db.add_tag_to_file_by_name(id, "图片", true).unwrap();
    db.remove_tag_from_file(id, db.get_tag_by_name("图片").unwrap().id.unwrap()).unwrap();
    db.next_tag_id = i64::MAX;

    let mut generator = TagGenerator::new(db);
    assert!(generator.process_file(&file).is_err());

    let tags = generator.db.get_tags_by_file(id);
    assert!(tags.iter().any(|t| t.name == "图片"));
}

#[test]
fn test_process_files_sums_counts() {
    let mut db = Database::new();
    let mut a = create_test_file(1024 * 1024, FileType::Image);
    a.path = "/a.jpg".to_string();
    let ida = db.create_file(&a).unwrap();
    a.id = Some(ida);

    let mut generator = TagGenerator::new(db);
    let total = generator.process_files(&[a]).unwrap();
    assert!(total > 0);
}
