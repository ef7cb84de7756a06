use file_tag_manager::event::{FileEvent, RawEventKind, convert_raw_event};
use file_tag_manager::queue::{DebouncedHandler, EventHandler, EventQueue, QueueConfig};

struct Collecting {
    seen: Vec<FileEvent>,
}

impl EventHandler for Collecting {
    fn handle(&mut self, event: FileEvent) -> Result<(), String> {
        self.seen.push(event);
        Ok(())
    }

    fn handle_batch(&mut self, events: Vec<FileEvent>) -> Result<(), String> {
        for event in events {
            self.handle(event)?;
        }
        Ok(())
    }
}

#[test]
fn test_file_event_primary_path() {
    let path = "/test/file.jpg".to_string();
    let event = FileEvent::Created { path: path.clone() };

    assert_eq!(event.primary_path(), Some(&path));
}

#[test]
fn test_file_event_is_scan_event() {
    let path = "/test".to_string();
    assert!(FileEvent::ScanStart { path: path.clone() }.is_scan_event());
    assert!(FileEvent::ScanEnd { path: path.clone(), count: 10 }.is_scan_event());
    assert!(!FileEvent::Created { path }.is_scan_event());
}

#[test]
fn test_file_event_is_error() {
    let path = "/test".to_string();
    assert!(FileEvent::Error { path: path.clone(), error: "test".to_string() }.is_error());
    assert!(!FileEvent::Created { path }.is_error());
}

#[test]
fn test_event_queue_creation() {
    let config = QueueConfig { max_capacity: 100, debounce_delay_ms: 500, batch_size: 10 };
    let queue = EventQueue::new(config);

    assert_eq!(queue.len(), 0);
    assert!(queue.is_empty());
}

#[test]
fn test_event_queue_send_recv() {
    let config = QueueConfig::default();
    let mut queue = EventQueue::new(config);

    let path = "/test/file.jpg".to_string();
    let event = FileEvent::Created { path };

    queue.try_send(event.clone()).unwrap();
    assert_eq!(queue.len(), 1);

    let received = queue.recv().unwrap();
    assert_eq!(matches!(&received, FileEvent::Created { .. }), true);
}

#[test]
fn test_file_event_moved() {
    let from = "/test/old.jpg".to_string();
    let to = "/test/new.jpg".to_string();
    let event = FileEvent::Moved { from: from.clone(), to };

    assert_eq!(event.primary_path(), Some(&from));
}

#[test]
fn test_queue_rejects_when_full_or_closed() {
    let config = QueueConfig { max_capacity: 1, debounce_delay_ms: 0, batch_size: 10 };
    let mut queue = EventQueue::new(config);
    let ev = FileEvent::Created { path: "/a".to_string() };
    assert!(queue.try_send(ev.clone()).is_ok());
    assert!(queue.try_send(ev.clone()).is_err());

    let mut queue2 = EventQueue::new(QueueConfig::default());
    queue2.close();
    assert!(queue2.try_send(ev).is_err());
}

#[test]
fn test_queue_drains_after_close() {
    let mut queue = EventQueue::new(QueueConfig::default());
    queue.try_send(FileEvent::Created { path: "/a".to_string() }).unwrap();
    queue.close();
    assert!(queue.recv().is_some());
    assert!(queue.recv().is_none());
}

#[test]
fn test_recv_batch_respects_batch_size() {
    let config = QueueConfig { max_capacity: 100, debounce_delay_ms: 0, batch_size: 2 };
    let mut queue = EventQueue::new(config);
    for i in 0..3 {
        queue.try_send(FileEvent::Created { path: format!("/f{}", i) }).unwrap();
    }
    let batch = queue.recv_batch();
    assert_eq!(batch.len(), 2);
    assert_eq!(queue.len(), 1);
}

#[test]
fn test_dedup_three_modified_keeps_one() {
    // Three Modified events for one path in a single drain window:
    // exactly one survives.
    let mut queue = EventQueue::new(QueueConfig::default());
    for _ in 0..3 {
        queue.try_send(FileEvent::Modified { path: "/same".to_string() }).unwrap();
    }
    let out = queue.recv_deduplicated();
    assert_eq!(out.len(), 1);
    assert_eq!(out[0], FileEvent::Modified { path: "/same".to_string() });
}

#[test]
fn test_dedup_keeps_last_event_for_path() {
    let mut queue = EventQueue::new(QueueConfig::default());
    queue.try_send(FileEvent::Created { path: "/same".to_string() }).unwrap();
    queue.try_send(FileEvent::Modified { path: "/same".to_string() }).unwrap();
    queue.try_send(FileEvent::Created { path: "/other".to_string() }).unwrap();
    let out = queue.recv_deduplicated();
    assert_eq!(out.len(), 2);
    assert_eq!(out[0], FileEvent::Modified { path: "/same".to_string() });
    assert_eq!(out[1], FileEvent::Created { path: "/other".to_string() });
}

#[test]
fn test_dedup_never_collapses_scan_or_error_events() {
    let mut queue = EventQueue::new(QueueConfig::default());
    queue.try_send(FileEvent::ScanStart { path: "/d".to_string() }).unwrap();
    queue.try_send(FileEvent::ScanEnd { path: "/d".to_string(), count: 0 }).unwrap();
    queue.try_send(FileEvent::Error { path: "/d".to_string(), error: "x".to_string() }).unwrap();
    queue.try_send(FileEvent::Error { path: "/d".to_string(), error: "x".to_string() }).unwrap();
    let out = queue.recv_deduplicated();
    assert_eq!(out.len(), 4);
}

#[test]
fn test_debounce_two_events_collapse_to_latest() {
    // Two events for one path inside the delay window collapse to a
    // single delivered event equal to the second one.
    let inner = Collecting { seen: Vec::new() };
    let mut handler = DebouncedHandler::new(inner, 500);
    handler.record(FileEvent::Created { path: "/f".to_string() });
    handler.record(FileEvent::Modified { path: "/f".to_string() });

    let due = handler.take_due("/f");
    assert_eq!(due, Some(FileEvent::Modified { path: "/f".to_string() }));
    assert_eq!(handler.take_due("/f"), None);
}

#[test]
fn test_debounce_flush_delivers_to_inner() {
    let inner = Collecting { seen: Vec::new() };
    let mut handler = DebouncedHandler::new(inner, 500);
    handler.handle(FileEvent::Created { path: "/f".to_string() }).unwrap();
    handler.handle(FileEvent::Modified { path: "/f".to_string() }).unwrap();
    handler.flush("/f").unwrap();
    assert_eq!(handler.inner.seen.len(), 1);
    assert_eq!(handler.inner.seen[0], FileEvent::Modified { path: "/f".to_string() });
}

#[test]
fn test_convert_raw_event_translation() {
    let paths = vec!["/a".to_string(), "/b".to_string()];
    let created = convert_raw_event(RawEventKind::Create, paths.clone());
    assert_eq!(created.len(), 2);
    assert_eq!(created[0], FileEvent::Created { path: "/a".to_string() });

    let modified = convert_raw_event(RawEventKind::Modify, paths.clone());
    assert_eq!(modified[1], FileEvent::Modified { path: "/b".to_string() });

    let removed = convert_raw_event(RawEventKind::Remove, paths.clone());
    assert_eq!(removed[0], FileEvent::Deleted { path: "/a".to_string() });

    let dropped = convert_raw_event(RawEventKind::Other, paths);
    assert!(dropped.is_empty());
}

#[test]
fn test_queue_config_default() {
    let config = QueueConfig::default();
    assert_eq!(config.max_capacity, 10000);
    assert_eq!(config.debounce_delay_ms, 500);
    assert_eq!(config.batch_size, 100);
}
