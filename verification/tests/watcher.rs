use glintindex_core::watcher::state::{document_text, unsupported_file_type};
use glintindex_core::watcher::{events_for, events_of_notification, ChangeKind, WatchAction, WatchEvent, WatcherState};
use std::path::PathBuf;

#[test]
fn created_event_path() {
    let event = WatchEvent::Created("/tmp/new.txt".to_string());
    assert_eq!(event.path(), "/tmp/new.txt");
    assert_eq!(event.kind(), "created");
}

#[test]
fn modified_event_path() {
    let event = WatchEvent::Modified("/tmp/existing.txt".to_string());
    assert_eq!(event.path(), "/tmp/existing.txt");
    assert_eq!(event.kind(), "modified");
}

#[test]
fn deleted_event_path() {
    let event = WatchEvent::Deleted("/tmp/removed.txt".to_string());
    assert_eq!(event.path(), "/tmp/removed.txt");
    assert_eq!(event.kind(), "deleted");
}

#[test]
fn events_are_clonable() {
    let event = WatchEvent::Created("/tmp/test.txt".to_string());
    let cloned = event.clone();
    assert_eq!(event, cloned);
}

#[test]
fn events_are_debuggable() {
    let event = WatchEvent::Modified("/tmp/test.txt".to_string());
    let debug_str = format!("{:?}", event);
    assert!(debug_str.contains("Modified"));
}

#[test]
fn notify_event_conversion_created() {
    let notify_event = notify::Event::new(notify::EventKind::Create(notify::event::CreateKind::File))
        .add_path(PathBuf::from("/tmp/test.txt"));
    let received = events_of_notification(&notify_event);
    assert_eq!(received, vec![WatchEvent::Created("/tmp/test.txt".to_string())]);
}

#[test]
fn notify_event_conversion_modified() {
    let notify_event = notify::Event::new(notify::EventKind::Modify(notify::event::ModifyKind::Data(
        notify::event::DataChange::Content,
    )))
    .add_path(PathBuf::from("/tmp/test.txt"));
    let received = events_of_notification(&notify_event);
    assert_eq!(received, vec![WatchEvent::Modified("/tmp/test.txt".to_string())]);
}

#[test]
fn notify_event_conversion_deleted() {
    let notify_event = notify::Event::new(notify::EventKind::Remove(notify::event::RemoveKind::File))
        .add_path(PathBuf::from("/tmp/test.txt"));
    let received = events_of_notification(&notify_event);
    assert_eq!(received, vec![WatchEvent::Deleted("/tmp/test.txt".to_string())]);
}

#[test]
fn notify_event_skips_other_kinds() {
    let notify_event = notify::Event::new(notify::EventKind::Other).add_path(PathBuf::from("/tmp/test.txt"));
    assert!(events_of_notification(&notify_event).is_empty());
}

#[test]
fn notify_event_ignores_access_kinds() {
    let notify_event = notify::Event::new(notify::EventKind::Access(notify::event::AccessKind::Read))
        .add_path(PathBuf::from("/tmp/test.txt"));
    assert!(events_of_notification(&notify_event).is_empty());
}

#[test]
fn notification_with_several_paths_gives_one_event_each() {
    let paths = vec!["/a/x.txt".to_string(), "/a/y.txt".to_string()];
    let events = events_for(ChangeKind::Remove, &paths);
    assert_eq!(
        events,
        vec![WatchEvent::Deleted("/a/x.txt".to_string()), WatchEvent::Deleted("/a/y.txt".to_string())]
    );
    assert!(events_for(ChangeKind::Other, &paths).is_empty());
}

#[test]
fn create_watcher() {
    let watcher = WatcherState::new();
    assert!(!watcher.is_running());
    assert!(watcher.watched_dirs().is_empty());
}

#[test]
fn create_watcher_with_custom_ignores() {
    let custom = vec!["custom_dir".to_string()];
    let watcher = WatcherState::with_custom_ignores(&custom);
    assert!(watcher.should_ignore_path("/home/u/custom_dir/file.txt"));
}

#[test]
fn start_and_stop_watcher() {
    let mut watcher = WatcherState::new();
    watcher.set_running(true);
    assert!(watcher.is_running());
    watcher.set_running(false);
    assert!(!watcher.is_running());
}

#[test]
fn watch_directory() {
    let mut watcher = WatcherState::new();
    watcher.watch_dir("/tmp/watched");
    assert_eq!(watcher.watched_dirs().len(), 1);
    assert_eq!(watcher.watched_dirs()[0], "/tmp/watched");
}

#[test]
fn watch_duplicate_directory_is_noop() {
    let mut watcher = WatcherState::new();
    watcher.watch_dir("/tmp/watched");
    watcher.watch_dir("/tmp/watched");
    assert_eq!(watcher.watched_dirs().len(), 1);
}

#[test]
fn unwatch_directory() {
    let mut watcher = WatcherState::new();
    watcher.watch_dir("/tmp/watched");
    assert_eq!(watcher.watched_dirs().len(), 1);
    watcher.unwatch_dir("/tmp/watched");
    assert!(watcher.watched_dirs().is_empty());
}

#[test]
fn watched_dirs_reflects_state() {
    let mut watcher = WatcherState::new();
    assert!(watcher.watched_dirs().is_empty());
    watcher.watch_dir("/tmp/a");
    assert_eq!(watcher.watched_dirs().len(), 1);
    watcher.watch_dir("/tmp/b");
    assert_eq!(watcher.watched_dirs().len(), 2);
    watcher.unwatch_dir("/tmp/a");
    assert_eq!(watcher.watched_dirs(), &["/tmp/b".to_string()]);
}

#[test]
fn skip_ignored_directory() {
    let watcher = WatcherState::new();
    let event = WatchEvent::Created("/tmp/scan/.git/config".to_string());
    assert_eq!(watcher.action_for(&event), WatchAction::Skip);
}

#[test]
fn actions_follow_event_kinds() {
    let watcher = WatcherState::new();
    assert_eq!(
        watcher.action_for(&WatchEvent::Created("/tmp/scan/a.txt".to_string())),
        WatchAction::Index("/tmp/scan/a.txt".to_string())
    );
    assert_eq!(
        watcher.action_for(&WatchEvent::Modified("/tmp/scan/a.txt".to_string())),
        WatchAction::Index("/tmp/scan/a.txt".to_string())
    );
    assert_eq!(
        watcher.action_for(&WatchEvent::Deleted("/tmp/scan/a.txt".to_string())),
        WatchAction::Remove("/tmp/scan/a.txt".to_string())
    );
    assert_eq!(
        watcher.action_for(&WatchEvent::Deleted("/p/node_modules/x/a.txt".to_string())),
        WatchAction::Skip
    );
}

#[test]
fn ignored_name_must_be_a_whole_component() {
    let watcher = WatcherState::new();
    assert!(!watcher.should_ignore_path("/tmp/my.git/file.txt"));
    assert!(!watcher.should_ignore_path("/tmp/builds/file.txt"));
    assert!(watcher.should_ignore_path("build/file.txt"));
    assert!(watcher.should_ignore_path("/tmp/target"));
}

#[test]
fn document_text_refuses_binary_content() {
    let binary_content: Vec<u8> = (0..100).map(|i| (i % 32) as u8).collect();
    let err = document_text(&binary_content).unwrap_err();
    assert_eq!(err.message(), "binary file detected");
    assert_eq!(document_text(b"hello world").unwrap(), "hello world");
    assert_eq!(document_text(&[0xFF, 0xFE, b'h', b'i']).unwrap(), "\u{FFFD}\u{FFFD}hi");
    assert_eq!(unsupported_file_type().message(), "unsupported file type");
}

#[test]
fn directories_are_compared_as_paths() {
    let mut watcher = WatcherState::new();
    watcher.watch_dir("/tmp/a");
    watcher.watch_dir("/tmp/a/");
    watcher.watch_dir("/tmp/./a");
    assert_eq!(watcher.watched_dirs(), &["/tmp/a".to_string()]);
    watcher.watch_dir("tmp/a");
    assert_eq!(watcher.watched_dirs().len(), 2);
    watcher.unwatch_dir("/tmp/a/");
    assert_eq!(watcher.watched_dirs(), &["tmp/a".to_string()]);
}
