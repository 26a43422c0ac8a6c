//! The decisions of showing one file: whether it can be read, what to do
//! with the offset, and, when following by name, waiting for the file to
//! be created.

use vstd::prelude::*;
use vstd::string::StringExecFns;

use crate::config::{ConfigOpts, OffsetUnit};
use crate::errors::FileError;
use super::ProcessorKind;

verus! {

/// What to do with a path given on the command line.
#[derive(PartialEq, Eq, Structural, Clone, Copy, Debug)]
pub enum FileCheck {
    /// It is a file: show it.
    Proceed,
    /// It does not exist yet and we follow by name: wait for it.
    WaitForCreation,
    /// It does not exist: report it, with similar names.
    NotFound,
    /// It exists but is no regular file.
    NotAFile,
}

/// What to do with a path: a missing path is waited for when following by
/// name and reported otherwise; an existing path must be a regular file.
pub open spec fn spec_check_file(exists: bool, is_file: bool, sticky: bool) -> FileCheck {
    if !exists {
        if sticky { FileCheck::WaitForCreation } else { FileCheck::NotFound }
    } else if !is_file {
        FileCheck::NotAFile
    } else {
        FileCheck::Proceed
    }
}

/// What to do with a path, from whether it exists and is a regular file.
pub fn check_file(exists: bool, is_file: bool, sticky: bool) -> (r: FileCheck)
    ensures
        r == spec_check_file(exists, is_file, sticky),
{
    if !exists {
        if sticky { FileCheck::WaitForCreation } else { FileCheck::NotFound }
    } else if !is_file {
        FileCheck::NotAFile
    } else {
        FileCheck::Proceed
    }
}

/// How to show a file once its reader is chosen.
#[derive(PartialEq, Eq, Structural, Clone, Copy, Debug)]
pub enum FilePlan {
    /// The back-seeking reader handles the offset and following itself.
    BackSeek,
    /// Skip this many lines from the start, then show the rest.
    SkipLines(u64),
    /// Show the whole file.
    WholeFile,
}

/// How to show a file: the back-seeking reader handles everything itself;
/// the other readers skip a positive line offset, else show it all.
pub open spec fn spec_file_plan(cfg: ConfigOpts, kind: ProcessorKind) -> FilePlan {
    if kind == ProcessorKind::BackSeeking {
        FilePlan::BackSeek
    } else if cfg.offset > 0 && cfg.offset_unit == OffsetUnit::Lines {
        FilePlan::SkipLines(cfg.offset as u64)
    } else {
        FilePlan::WholeFile
    }
}

/// How to show a file, for the reader `kind`.
pub fn file_plan(cfg: &ConfigOpts, kind: ProcessorKind) -> (r: FilePlan)
    ensures
        r == spec_file_plan(*cfg, kind),
{
    if kind == ProcessorKind::BackSeeking {
        FilePlan::BackSeek
    } else if cfg.offset > 0 && cfg.offset_unit == OffsetUnit::Lines {
        FilePlan::SkipLines(cfg.offset as u64)
    } else {
        FilePlan::WholeFile
    }
}

/// What `Path::parent` gives for a path, as text.
pub uninterp spec fn std_parent(path: Seq<char>) -> Option<Seq<char>>;

/// `Path::new(path).parent()`, as text.
#[verifier::external_body]
fn path_parent(path: &str) -> (r: Option<String>)
    ensures
        match r {
            Some(s) => std_parent(path@) == Some(s@),
            None => std_parent(path@) is None,
        },
{
    std::path::Path::new(path).parent().and_then(|p| p.to_str()).map(|p| p.to_owned())
}

/// What `Path::file_name` gives for a path, as text: its last component,
/// `None` when it ends in `..` or has no component.
pub uninterp spec fn std_path_file_name(path: Seq<char>) -> Option<Seq<char>>;

/// `Path::new(path).file_name()`, as text.
#[verifier::external_body]
pub(crate) fn path_file_name(path: &str) -> (r: Option<String>)
    ensures
        match r {
            Some(s) => std_path_file_name(path@) == Some(s@),
            None => std_path_file_name(path@) is None,
        },
{
    std::path::Path::new(path).file_name().and_then(|n| n.to_str()).map(|n| n.to_owned())
}

/// Whether `e` is the not-found error for `path` with the one note `note`.
pub open spec fn is_not_found(e: FileError, path: Seq<char>, note: Seq<char>) -> bool {
    e matches FileError::NotFound { path: p, similar_files: notes } && p@ == path && notes@.len() == 1
        && notes@[0]@ == note
}

fn not_found(path: &str, note: &str) -> (e: FileError)
    ensures
        is_not_found(e, path@, note@),
{
    let mut notes: Vec<String> = Vec::new();
    notes.push(String::from_str(note));
    FileError::NotFound { path: String::from_str(path), similar_files: notes }
}

/// The directory to watch for `target` to appear in, and the file name to
/// wait for: `parent_exists` tells whether that directory exists.
pub fn parent_dir(target: &str) -> (r: Option<String>)
    ensures
        match r {
            Some(s) => std_parent(target@) == Some(s@),
            None => std_parent(target@) is None,
        },
{
    path_parent(target)
}

/// Sets up waiting for `target` to be created in its directory `parent`
/// (that `parent_dir` gave): the file name to wait for, or the error when
/// there is no directory, it does not exist, or there is no file name.
pub fn creation_watch_setup(target: &str, parent: &Option<String>, parent_exists: bool) -> (r: Result<String, FileError>)
    ensures
        match *parent {
            None => r matches Err(e) && is_not_found(e, target@, "Parent directory not found"@),
            Some(p) => if !parent_exists {
                r matches Err(e) && is_not_found(e, p@, "Parent directory must exist for file watching"@)
            } else {
                match std_path_file_name(target@) {
                    Some(n) => r matches Ok(s) && s@ == n,
                    None => r matches Err(e) && is_not_found(e, target@, "Invalid filename"@),
                }
            },
        },
{
    match parent {
        None => Err(not_found(target, "Parent directory not found")),
        Some(p) => {
            if !parent_exists {
                return Err(not_found(p.as_str(), "Parent directory must exist for file watching"));
            }
            match path_file_name(target) {
                Some(n) => Ok(n),
                None => Err(not_found(target, "Invalid filename")),
            }
        },
    }
}

/// `a + b`, or the largest `u64` when that overflows.
pub open spec fn sat_add_u64(a: u64, b: u64) -> u64 {
    if a + b > u64::MAX { u64::MAX } else { (a + b) as u64 }
}

/// The seconds between waits for an event.
pub const WAIT_STEP_SECS: u64 = 5;
/// The seconds between "still watching" messages.
pub const WAIT_MESSAGE_SECS: u64 = 30;

/// Waiting for a file to be created.
#[derive(Debug)]
pub struct CreationWait {
    /// The file name waited for.
    pub target_name: String,
    /// Seconds waited so far, counted in steps.
    pub elapsed_seconds: u64,
}

/// What to do after something happened while waiting.
#[derive(PartialEq, Eq, Structural, Clone, Copy, Debug)]
pub enum WaitStep {
    /// The file is there: start showing it.
    Done,
    /// Keep waiting.
    Continue,
    /// Say that we are still waiting, this long, and keep waiting.
    StillWaiting(u64),
    /// Keep waiting after saying so, and the file is there after all.
    StillWaitingDone(u64),
}

impl CreationWait {
    /// Waiting for the file named `target_name`.
    pub fn new(target_name: String) -> (r: Self)
        ensures
            r.target_name == target_name,
            r.elapsed_seconds == 0,
    {
        CreationWait { target_name, elapsed_seconds: 0 }
    }

    /// A file was created; `created_name` is its file name, if it has one.
    /// Waiting ends when it is the file waited for.
    pub fn on_created(&self, created_name: &Option<String>) -> (r: WaitStep)
        ensures
            r == (if created_name matches Some(n) && n@ == self.target_name@ {
                WaitStep::Done
            } else {
                WaitStep::Continue
            }),
    {
        match created_name {
            Some(n) => {
                let a = crate::text::chars_of(n.as_str());
                if crate::defaults::chars_equal(a.as_slice(), self.target_name.as_str()) {
                    WaitStep::Done
                } else {
                    WaitStep::Continue
                }
            },
            None => WaitStep::Continue,
        }
    }

    /// No event came within a step: the time waited grows by a step; a
    /// message is due when the last one is `WAIT_MESSAGE_SECS` or more ago;
    /// waiting ends when the file exists by now (it may have appeared
    /// unnoticed).
    pub fn on_timeout(&mut self, secs_since_message: u64, target_exists: bool) -> (r: WaitStep)
        ensures
            final(self).target_name == old(self).target_name,
            final(self).elapsed_seconds == sat_add_u64(old(self).elapsed_seconds, WAIT_STEP_SECS),
            r == (if secs_since_message >= WAIT_MESSAGE_SECS {
                if target_exists {
                    WaitStep::StillWaitingDone(final(self).elapsed_seconds)
                } else {
                    WaitStep::StillWaiting(final(self).elapsed_seconds)
                }
            } else if target_exists {
                WaitStep::Done
            } else {
                WaitStep::Continue
            }),
    {
        self.elapsed_seconds = self.elapsed_seconds.saturating_add(WAIT_STEP_SECS);
        if secs_since_message >= WAIT_MESSAGE_SECS {
            if target_exists {
                WaitStep::StillWaitingDone(self.elapsed_seconds)
            } else {
                WaitStep::StillWaiting(self.elapsed_seconds)
            }
        } else if target_exists {
            WaitStep::Done
        } else {
            WaitStep::Continue
        }
    }

    /// The watcher stopped: waiting fails.
    pub fn on_closed(&self, target: &str) -> (e: FileError)
        ensures
            is_not_found(e, target@, "File watcher stopped unexpectedly"@),
    {
        not_found(target, "File watcher stopped unexpectedly")
    }
}

} // verus!
