use file_tag_manager::models::{FileType, SearchOperator, SearchQuery};
use file_tag_manager::search::SearchEngine;
use file_tag_manager::store::Database;

fn query(keywords: Vec<&str>, operator: SearchOperator) -> SearchQuery {
    SearchQuery {
        keywords: keywords.into_iter().map(|k| k.to_string()).collect(),
        operator,
        file_type_filter: None,
        limit: 50,
        offset: 0,
    }
}

#[test]
fn test_search_query_and_operator() {
    let query = SearchQuery {
        keywords: vec!["图片".to_string(), "今日".to_string()],
        operator: SearchOperator::And,
        file_type_filter: None,
        limit: 50,
        offset: 0,
    };

    assert_eq!(query.keywords.len(), 2);
    assert_eq!(query.operator, SearchOperator::And);
}

#[test]
fn test_search_query_or_operator() {
    let query = SearchQuery {
        keywords: vec!["jpg".to_string(), "png".to_string()],
        operator: SearchOperator::Or,
        file_type_filter: None,
        limit: 50,
        offset: 0,
    };

    assert_eq!(query.operator, SearchOperator::Or);
}

#[test]
fn test_search_query_with_filter() {
    let query = SearchQuery {
        keywords: vec!["test".to_string()],
        operator: SearchOperator::And,
        file_type_filter: Some(FileType::Image),
        limit: 50,
        offset: 0,
    };

    assert!(query.file_type_filter.is_some());
    assert_eq!(query.file_type_filter, Some(FileType::Image));
}

#[test]
fn test_fts_query_and_joins_with_space() {
    let db = Database::new();
    let q = query(vec!["alpha", "beta"], SearchOperator::And);
    let built = db.build_fts_query(&q).unwrap();
    assert_eq!(built, "\"alpha\" \"beta\"");
}

#[test]
fn test_fts_query_or_joins_with_or() {
    let db = Database::new();
    let q = query(vec!["alpha", "beta"], SearchOperator::Or);
    let built = db.build_fts_query(&q).unwrap();
    assert_eq!(built, "\"alpha\" OR \"beta\"");
}

#[test]
fn test_fts_query_escapes_inner_quotes() {
    let db = Database::new();
    let q = query(vec!["he\"llo"], SearchOperator::And);
    let built = db.build_fts_query(&q).unwrap();
    assert_eq!(built, "\"he\"\"llo\"");
}

#[test]
fn test_fts_query_empty_keywords() {
    let db = Database::new();
    let q = query(vec![], SearchOperator::And);
    let built = db.build_fts_query(&q).unwrap();
    assert_eq!(built, "");
}

#[test]
fn test_operator_parse_accepts_and_or() {
    assert_eq!(SearchOperator::parse("AND").unwrap(), SearchOperator::And);
    assert_eq!(SearchOperator::parse("and").unwrap(), SearchOperator::And);
    assert_eq!(SearchOperator::parse("OR").unwrap(), SearchOperator::Or);
    assert_eq!(SearchOperator::parse("or").unwrap(), SearchOperator::Or);
}

#[test]
fn test_operator_parse_rejects_unknown() {
    // An unrecognized operator is rejected before any query is built.
    assert!(SearchOperator::parse("XOR").is_err());
    assert!(SearchOperator::parse("").is_err());
}

#[test]
fn test_search_engine_answers_empty_page() {
    let engine = SearchEngine::new();
    let q = query(vec!["anything"], SearchOperator::And);
    let resp = engine.search(&q).unwrap();
    assert_eq!(resp.results.len(), 0);
    assert_eq!(resp.total, 0);
}
