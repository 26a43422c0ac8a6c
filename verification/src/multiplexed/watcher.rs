//! Events of the files being followed, and what following does with each.

use vstd::prelude::*;
use vstd::string::StringExecFns;

verus! {

/// What happened to a followed file.
#[derive(Debug, Clone, PartialEq, Eq)]
pub enum WatchEvent {
    /// The file was modified: new content may be there.
    FileModified(String),
    /// The file was created.
    FileCreated(String),
    /// The file was deleted.
    FileDeleted(String),
    /// The file was moved or renamed.
    FileMoved { from: String, to: String },
    /// Watching failed.
    Error(String),
}

/// How the file watcher is set up.
#[derive(Debug, Clone, Copy, PartialEq, Eq, Structural)]
pub struct WatcherConfig {
    /// How long to wait between checks, in ms.
    pub poll_interval_ms: u64,
    /// How many events to hold at most.
    pub event_buffer_size: usize,
    /// Whether to poll where events are unreliable.
    pub use_polling: bool,
}

impl Default for WatcherConfig {
    fn default() -> (r: Self)
        ensures
            r == (WatcherConfig { poll_interval_ms: 100, event_buffer_size: 1000, use_polling: false }),
    {
        WatcherConfig { poll_interval_ms: 100, event_buffer_size: 1000, use_polling: false }
    }
}

/// The kind of a file system event, as far as following cares.
#[derive(Debug, Clone, Copy, PartialEq, Eq, Structural)]
pub enum EventKind {
    Modify,
    Create,
    Remove,
    Other,
}

/// Turns a file system event into the event that following sees.
pub fn convert_event(kind: EventKind, paths: &Vec<String>) -> (r: Option<WatchEvent>)
    ensures
        match r {
            Some(WatchEvent::FileModified(p)) => kind == EventKind::Modify && paths@.len() > 0 && p@ == paths@[0]@,
            Some(WatchEvent::FileCreated(p)) => kind == EventKind::Create && paths@.len() > 0 && p@ == paths@[0]@,
            Some(WatchEvent::FileDeleted(p)) => kind == EventKind::Remove && paths@.len() > 0 && p@ == paths@[0]@,
            Some(_) => false,
            None => paths@.len() == 0 || kind == EventKind::Other,
        },
{
    if paths.len() == 0 {
        return None;
    }
    let p = paths[0].clone();
    match kind {
        EventKind::Modify => Some(WatchEvent::FileModified(p)),
        EventKind::Create => Some(WatchEvent::FileCreated(p)),
        EventKind::Remove => Some(WatchEvent::FileDeleted(p)),
        EventKind::Other => None,
    }
}

/// What following does with an event.
#[derive(Debug, Clone, PartialEq, Eq)]
pub enum TailAction {
    /// Read the new lines of this file and batch them.
    ReadNewLines(String),
    /// Report a watch error.
    Report(String),
    /// Nothing (creation, deletion and moves are not followed up).
    Ignore,
}

/// What following does with an event: a modified file is read, an error is
/// reported, other events are ignored.
pub fn tail_action(event: &WatchEvent) -> (r: TailAction)
    ensures
        match *event {
            WatchEvent::FileModified(p) => r matches TailAction::ReadNewLines(q) && q@ == p@,
            WatchEvent::Error(e) => r matches TailAction::Report(m) && m@ == "Watch error: "@ + e@,
            _ => r == TailAction::Ignore,
        },
{
    match event {
        WatchEvent::FileModified(p) => TailAction::ReadNewLines(p.clone()),
        WatchEvent::Error(e) => {
            let mut m = String::from_str("Watch error: ");
            m.append(e.as_str());
            TailAction::Report(m)
        },
        _ => TailAction::Ignore,
    }
}

} // verus!
