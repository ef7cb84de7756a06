use file_tag_manager::models::AppError;
use file_tag_manager::watch::WatchRegistry;

#[test]
fn test_register_and_contains() {
    let mut registry = WatchRegistry::new();
    assert_eq!(registry.len(), 0);
    registry.register("/a").unwrap();
    registry.register("/b").unwrap();
    assert_eq!(registry.len(), 2);
    assert!(registry.contains("/a"));
    assert!(!registry.contains("/c"));
}

#[test]
fn test_duplicate_registration_is_an_error() {
    let mut registry = WatchRegistry::new();
    registry.register("/a").unwrap();
    let second = registry.register("/a");
    assert!(matches!(second, Err(AppError::AlreadyWatched(_))));
    assert_eq!(registry.len(), 1);
}

#[test]
fn test_unregister_and_clear() {
    let mut registry = WatchRegistry::new();
    registry.register("/a").unwrap();
    registry.register("/b").unwrap();
    assert!(registry.unregister("/a"));
    assert!(!registry.unregister("/a"));
    assert_eq!(registry.paths().len(), 1);
    registry.clear();
    assert_eq!(registry.len(), 0);
}
