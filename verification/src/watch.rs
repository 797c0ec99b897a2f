//! The watch manager: at most one active filesystem watch at a time,
//! debounced by the OS watcher and published to one listener as
//! [`WatchEvent`] messages on a channel.

use vstd::prelude::*;
use vstd::string::StringExecFns;
use crate::changes::RawChange;

verus! {

/// Quiet period of the debounce window, in milliseconds.
pub const DEBOUNCE_WINDOW_MS: u64 = 500;

/// What the background watcher publishes: one debounced window's raw
/// events, or one error the OS reported in place of events.
pub enum WatchEvent {
    Batch(Vec<RawChange>),
    Failure(String),
}

/// Why a watch operation failed.
#[derive(Debug)]
pub enum WatchError {
    /// The shared watch state could not be acquired.
    LockContention(String),
    /// The OS-level watcher could not be constructed.
    WatcherConstructionFailure(String),
    /// The OS refused to watch the requested path.
    WatchInstallFailure(String),
}

impl WatchError {
    /// The human-readable message reported to the caller.
    pub open spec fn message_view(&self) -> Seq<char> {
        match self {
            WatchError::LockContention(m) => "Failed to lock watcher: "@ + m@,
            WatchError::WatcherConstructionFailure(m) => "Failed to create watcher: "@ + m@,
            WatchError::WatchInstallFailure(m) => "Failed to watch directory: "@ + m@,
        }
    }

    /// Renders the message.
    pub fn message(&self) -> (r: String)
        ensures
            r@ == self.message_view(),
    {
        match self {
            WatchError::LockContention(m) => String::from_str("Failed to lock watcher: ").concat(
                m.as_str(),
            ),
            WatchError::WatcherConstructionFailure(m) => String::from_str(
                "Failed to create watcher: ",
            ).concat(m.as_str()),
            WatchError::WatchInstallFailure(m) => String::from_str(
                "Failed to watch directory: ",
            ).concat(m.as_str()),
        }
    }
}

/// The OS watch handle: `notify_debouncer_full`'s debouncer, held opaquely.
/// Dropping it stops the debouncer and releases the OS watch.
#[verifier::external_body]
struct DebouncerHandle {
    inner: notify_debouncer_full::Debouncer<
        notify::RecommendedWatcher,
        notify_debouncer_full::RecommendedCache,
    >,
}

#[verifier::external_type_specification]
#[verifier::external_body]
#[verifier::reject_recursive_types(T)]
pub struct ExSender<T>(std::sync::mpsc::Sender<T>);

/// Relies on `notify_debouncer_full::new_debouncer`: builds the OS watcher
/// and its debouncing thread with the given quiet period; the handler runs
/// on that thread and publishes each window's events, converted to plain
/// kind and path strings, and each reported error, on the given channel.
#[verifier::external_body]
fn new_debounced_watcher(window_ms: u64, tx: &std::sync::mpsc::Sender<WatchEvent>) -> (r: Result<
    DebouncerHandle,
    String,
>)
{
    let tx = tx.clone();
    notify_debouncer_full::new_debouncer(
        std::time::Duration::from_millis(window_ms),
        None,
        move |r: notify_debouncer_full::DebounceEventResult| match r {
            Ok(evs) => drop(tx.send(WatchEvent::Batch(evs.iter().map(|e| RawChange {
                kind: format!("{:?}", e.event.kind),
                paths: e.paths.iter().map(|p| p.display().to_string()).collect(),
            }).collect()))),
            Err(es) => es.iter().for_each(|e| drop(tx.send(WatchEvent::Failure(format!("{:?}", e))))),
        },
    ).map(|d| DebouncerHandle { inner: d }).map_err(|e| e.to_string())
}

/// Relies on `notify_debouncer_full::Debouncer::watch`: asks the OS to
/// watch the directory itself, not its subdirectories; an `Err` is the
/// OS's refusal, rendered as text.
#[verifier::external_body]
fn watch_directory(d: &mut DebouncerHandle, path: &str) -> (r: Result<(), String>)
{
    d.inner.watch(std::path::Path::new(path), notify::RecursiveMode::NonRecursive).map_err(
        |e| e.to_string(),
    )
}

/// The single active watch: the watched path and the OS watch handle.
/// Dropping it releases the OS resources.
struct WatchSession {
    path: String,
    handle: DebouncerHandle,
}

/// The watch manager. It owns at most one active session; starting a watch
/// always tears the previous session down first, and stopping is total.
pub struct WatcherState {
    session: Option<WatchSession>,
    events_tx: std::sync::mpsc::Sender<WatchEvent>,
}

impl WatcherState {
    /// The path of the active session, if one is active.
    pub closed spec fn watched(&self) -> Option<Seq<char>> {
        match self.session {
            Some(s) => Some(s.path@),
            None => None,
        }
    }

    /// A manager with no active watch, publishing to `events_tx`.
    pub fn new(events_tx: std::sync::mpsc::Sender<WatchEvent>) -> (r: WatcherState)
        ensures
            r.watched() is None,
    {
        WatcherState { session: None, events_tx }
    }

    /// Starts watching `path`, tearing down any previous session first,
    /// even when installing the new watch then fails: afterwards either
    /// exactly the new session is active, or none is.
    pub fn start_watch(&mut self, path: String) -> (r: Result<(), WatchError>)
        ensures
            r is Ok ==> final(self).watched() == Some(path@),
            r is Err ==> final(self).watched() is None,
            r is Err ==> (r->Err_0 is WatcherConstructionFailure || r->Err_0 is WatchInstallFailure),
    {
        self.session = None;
        let mut handle = match new_debounced_watcher(DEBOUNCE_WINDOW_MS, &self.events_tx) {
            Ok(d) => d,
            Err(msg) => {
                return Err(WatchError::WatcherConstructionFailure(msg));
            },
        };
        match watch_directory(&mut handle, path.as_str()) {
            Ok(()) => {
                self.session = Some(WatchSession { path, handle });
                Ok(())
            },
            Err(msg) => Err(WatchError::WatchInstallFailure(msg)),
        }
    }

    /// Stops the active watch; a no-op when none is active. Total: repeated
    /// calls succeed and leave the manager idle.
    pub fn stop_watch(&mut self)
        ensures
            final(self).watched() is None,
    {
        self.session = None;
    }

    /// Whether a session is active.
    pub fn is_watching(&self) -> (r: bool)
        ensures
            r == (self.watched() is Some),
    {
        self.session.is_some()
    }

    /// The watched path, if a session is active.
    pub fn watched_path(&self) -> (r: Option<&String>)
        ensures
            match r {
                Some(p) => self.watched() == Some(p@),
                None => self.watched() is None,
            },
    {
        match &self.session {
            Some(s) => Some(&s.path),
            None => None,
        }
    }
}

} // verus!
