use std::sync::mpsc::channel;

use file_explorer::{WatchError, WatchEvent, WatcherState};

#[test]
fn stop_watch_when_idle_is_idempotent() {
    let (tx, _rx) = channel::<WatchEvent>();
    let mut manager = WatcherState::new(tx);
    assert!(!manager.is_watching());
    manager.stop_watch();
    manager.stop_watch();
    assert!(!manager.is_watching());
    assert_eq!(manager.watched_path(), None);
}

#[test]
fn second_start_watch_binds_the_second_path() {
    let (tx, _rx) = channel::<WatchEvent>();
    let mut manager = WatcherState::new(tx);
    manager.start_watch("/tmp".to_string()).expect("watching /tmp");
    assert_eq!(manager.watched_path(), Some(&"/tmp".to_string()));
    manager.start_watch("/".to_string()).expect("watching /");
    assert!(manager.is_watching());
    assert_eq!(manager.watched_path(), Some(&"/".to_string()));
    manager.stop_watch();
    assert!(!manager.is_watching());
}

#[test]
fn start_watch_on_missing_path_fails_and_leaves_idle() {
    let (tx, _rx) = channel::<WatchEvent>();
    let mut manager = WatcherState::new(tx);
    manager.start_watch("/tmp".to_string()).expect("watching /tmp");
    let result = manager.start_watch("/surely/not/a/real/path".to_string());
    match result {
        Err(WatchError::WatchInstallFailure(_)) => {}
        other => panic!("expected an install failure, got {:?}", other),
    }
    // The failed start tore the earlier session down and installed nothing.
    assert!(!manager.is_watching());
}

#[test]
fn watch_error_messages_carry_their_prefix() {
    let construction = WatchError::WatcherConstructionFailure("boom".to_string());
    assert_eq!(construction.message(), "Failed to create watcher: boom");
    let install = WatchError::WatchInstallFailure("denied".to_string());
    assert_eq!(install.message(), "Failed to watch directory: denied");
    let lock = WatchError::LockContention("poisoned".to_string());
    assert_eq!(lock.message(), "Failed to lock watcher: poisoned");
}
