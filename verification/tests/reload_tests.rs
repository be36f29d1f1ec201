use meme_service::services::reload::{
    Phase, ReloadAction, ReloadCoordinator, ReloadEvent, RESUBSCRIBE_BACKOFF_SECS,
};
use meme_service::utils::error::{InitError, LoadError, LookupError, ScanError, WatcherError};

#[test]
fn coordinator_starts_idle() {
    let c = ReloadCoordinator::new();
    assert_eq!(c.phase, Phase::Idle);
    assert!(!c.pending);
    assert!(!c.is_reloading());
}

#[test]
fn signal_starts_a_rescan_and_finish_returns_to_idle() {
    let mut c = ReloadCoordinator::new();
    assert_eq!(c.step(ReloadEvent::Signal), ReloadAction::Rescan);
    assert!(c.is_reloading());
    assert_eq!(c.step(ReloadEvent::ReloadFinished), ReloadAction::Wait);
    assert_eq!(c, ReloadCoordinator::new());
}

#[test]
fn burst_during_reload_gives_one_more_rescan() {
    let mut c = ReloadCoordinator::new();
    assert_eq!(c.step(ReloadEvent::Signal), ReloadAction::Rescan);
    assert_eq!(c.step(ReloadEvent::Signal), ReloadAction::Wait);
    assert_eq!(c.step(ReloadEvent::Signal), ReloadAction::Wait);
    assert_eq!(c.step(ReloadEvent::Signal), ReloadAction::Wait);
    assert!(c.pending);
    assert_eq!(c.step(ReloadEvent::ReloadFinished), ReloadAction::Rescan);
    assert!(c.is_reloading());
    assert!(!c.pending);
    assert_eq!(c.step(ReloadEvent::ReloadFinished), ReloadAction::Wait);
    assert_eq!(c.phase, Phase::Idle);
}

#[test]
fn closed_stream_asks_to_resubscribe_and_keeps_state() {
    let mut c = ReloadCoordinator::new();
    assert_eq!(c.step(ReloadEvent::StreamClosed), ReloadAction::Resubscribe);
    assert_eq!(c, ReloadCoordinator::new());
    c.step(ReloadEvent::Signal);
    c.step(ReloadEvent::Signal);
    let before = c;
    assert_eq!(c.step(ReloadEvent::StreamClosed), ReloadAction::Resubscribe);
    assert_eq!(c, before);
    assert_eq!(RESUBSCRIBE_BACKOFF_SECS, 1);
}

#[test]
fn finish_without_a_reload_changes_nothing() {
    let mut c = ReloadCoordinator::new();
    assert_eq!(c.step(ReloadEvent::ReloadFinished), ReloadAction::Wait);
    assert_eq!(c, ReloadCoordinator::new());
}

#[test]
fn errors_convert_by_kind() {
    assert_eq!(InitError::from_scan(ScanError::Empty), InitError::Empty);
    assert_eq!(InitError::from_scan(ScanError::Io), InitError::Io);
    assert_eq!(LookupError::from_load(LoadError::Io), LookupError::Io);
    assert!(!LookupError::Empty.is_transient());
    assert!(LookupError::NotFound.is_transient());
    assert!(LookupError::Io.is_transient());
}

#[test]
fn received_signal_and_closed_stream_are_told_apart() {
    let mut c = ReloadCoordinator::new();
    assert_eq!(c.on_received(Ok(())), ReloadAction::Rescan);
    assert_eq!(c.on_received(Ok(())), ReloadAction::Wait);
    assert_eq!(c.on_received(Err(WatcherError::StreamClosed)), ReloadAction::Resubscribe);
    assert!(c.is_reloading());
    assert!(c.pending);
    assert_eq!(c.step(ReloadEvent::ReloadFinished), ReloadAction::Rescan);
}
