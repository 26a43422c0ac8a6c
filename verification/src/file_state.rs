//! File state tracking for multi-file tailing: the position, size and
//! identity of each followed file, how they change when the file is looked
//! at again, and the lines that appeared since the last read.

use vstd::prelude::*;

use crate::errors::{IoError, IoFailure, TaleError};
use crate::readers::stdin::string_views;
use crate::text::{chars_of, spec_lines, split_lines, string_of, utf8_text};

verus! {

/// What looking at a path found.
pub enum FileObservation {
    /// Nothing is there.
    Missing,
    /// Something is there: its size, its inode number where the platform
    /// has one, and whether it is a regular file.
    Present { size: u64, inode: Option<u64>, is_file: bool },
    /// Looking failed.
    Failed(IoFailure),
}

/// Tracks the state of a single file being tailed.
#[derive(Debug)]
pub struct FileState {
    /// Path to the file.
    pub path: String,
    /// Current byte position in the file.
    pub position: u64,
    /// File size when last checked.
    pub size: u64,
    /// Inode number for detecting file rotation.
    pub inode: Option<u64>,
    /// Whether this file is currently available for reading.
    pub available: bool,
}

/// The fields of a file state that looking at the file changes.
pub struct StateView {
    pub position: u64,
    pub size: u64,
    pub inode: Option<u64>,
    pub available: bool,
}

impl FileState {
    pub open spec fn state(&self) -> StateView {
        StateView { position: self.position, size: self.size, inode: self.inode, available: self.available }
    }
}

/// The state after looking at the file again, and whether anything changed.
/// A missing file becomes unavailable (a change if it was available). A file
/// whose inode changed was rotated: when following by name (`sticky`) the new
/// file is read from its start, otherwise the old one is given up. Otherwise
/// the size and inode are taken over; availability changes, rotation and
/// growth of an available file count as changes.
pub open spec fn spec_refresh(s: StateView, size: u64, inode: Option<u64>, is_file: bool, sticky: bool) -> (StateView, bool) {
    let rotated = s.inode is Some && inode != s.inode;
    let next = if rotated {
        if sticky {
            StateView { position: 0, size, inode, available: is_file }
        } else {
            StateView { position: s.position, size: 0, inode: None, available: false }
        }
    } else {
        StateView { position: s.position, size, inode, available: is_file }
    };
    let changed = s.available != next.available || rotated || (next.available && size > s.size);
    (next, changed)
}

/// The state after finding nothing at the path.
pub open spec fn spec_missing(s: StateView) -> StateView {
    StateView { position: s.position, size: 0, inode: None, available: false }
}

/// Whether `e` is the error for failing to look at `path`.
pub open spec fn is_metadata_error(e: TaleError, path: Seq<char>, failure: IoFailure) -> bool {
    e matches TaleError::Io(io) && *io matches IoError::OperationFailed { operation, path: p, source }
        && operation@ == "Failed to get metadata for "@ + path && (p matches Some(q) && q@ == path) && source == failure
}

impl FileState {
    /// Create a new FileState for the given path.
    pub fn new(path: String) -> (s: Self)
        ensures
            s.path == path,
            s.state() == (StateView { position: 0, size: 0, inode: None, available: false }),
    {
        FileState { path, position: 0, size: 0, inode: None, available: false }
    }

    /// Create a new FileState and immediately refresh it with what looking
    /// at the file found.
    pub fn new_and_refresh(path: String, observation: FileObservation, sticky: bool) -> (r: Result<Self, TaleError>)
        ensures
            match observation {
                FileObservation::Missing => r matches Ok(s) && s.path == path && s.state() == spec_missing(
                    StateView { position: 0, size: 0, inode: None, available: false },
                ),
                FileObservation::Present { size, inode, is_file } => r matches Ok(s) && s.path == path
                    && s.state() == spec_refresh(
                    StateView { position: 0, size: 0, inode: None, available: false },
                    size,
                    inode,
                    is_file,
                    sticky,
                ).0,
                FileObservation::Failed(f) => r matches Err(e) && is_metadata_error(e, path@, f),
            },
    {
        let mut state = Self::new(path);
        match state.refresh(observation, sticky) {
            Ok(_) => Ok(state),
            Err(e) => Err(e),
        }
    }

    /// Set the starting position.
    pub fn set_position(&mut self, position: u64)
        ensures
            final(self).position == position,
            final(self).path == old(self).path,
            final(self).size == old(self).size,
            final(self).inode == old(self).inode,
            final(self).available == old(self).available,
    {
        self.position = position;
    }

    /// Update the file state from what looking at the file found; says
    /// whether anything changed.
    pub fn refresh(&mut self, observation: FileObservation, sticky: bool) -> (r: Result<bool, TaleError>)
        ensures
            final(self).path == old(self).path,
            match observation {
                FileObservation::Missing => r == Ok::<bool, TaleError>(old(self).available)
                    && final(self).state() == spec_missing(old(self).state()),
                FileObservation::Present { size, inode, is_file } => {
                    let (next, changed) = spec_refresh(old(self).state(), size, inode, is_file, sticky);
                    r == Ok::<bool, TaleError>(changed) && final(self).state() == next
                },
                FileObservation::Failed(f) => r matches Err(e) && is_metadata_error(e, old(self).path@, f)
                    && final(self).state() == old(self).state(),
            },
    {
        match observation {
            FileObservation::Missing => {
                let was_available = self.available;
                self.available = false;
                self.size = 0;
                self.inode = None;
                Ok(was_available)
            },
            FileObservation::Failed(source) => {
                let mut text = chars_of("Failed to get metadata for ");
                let mut p = chars_of(self.path.as_str());
                text.append(&mut p);
                let operation = string_of(text.as_slice());
                Err(TaleError::Io(Box::new(IoError::OperationFailed { operation, path: Some(self.path.clone()), source })))
            },
            FileObservation::Present { size: new_size, inode: new_inode, is_file } => {
                let was_available = self.available;
                let old_inode = self.inode;
                let old_size = self.size;
                let file_rotated = if old_inode.is_some() && new_inode != old_inode {
                    if sticky {
                        self.inode = new_inode;
                        self.position = 0;
                        self.available = is_file;
                        self.size = new_size;
                    } else {
                        self.available = false;
                        self.size = 0;
                        self.inode = None;
                    }
                    true
                } else {
                    self.available = is_file;
                    self.size = new_size;
                    self.inode = new_inode;
                    false
                };
                let changed = was_available != self.available || file_rotated || (self.available && new_size > old_size);
                Ok(changed)
            },
        }
    }

    /// Check if this file has new data available since last read.
    pub fn has_new_data(&self) -> (r: bool)
        ensures
            r == (self.available && self.size > self.position),
    {
        self.available && self.size > self.position
    }

    /// Mark that we've read up to the given position.
    pub fn update_position(&mut self, new_position: u64)
        ensures
            final(self).position == new_position,
            final(self).path == old(self).path,
            final(self).size == old(self).size,
            final(self).inode == old(self).inode,
            final(self).available == old(self).available,
    {
        self.position = new_position;
    }

    /// Whether there is anything to read: the file is available and has new
    /// data.
    pub fn wants_read(&self) -> (r: bool)
        ensures
            r == (self.available && self.size > self.position),
    {
        self.available && self.has_new_data()
    }

    /// Takes the bytes read from the current position to the end of the
    /// file: the position moves past them, and their lines are returned,
    /// line endings removed. Bytes that are not valid UTF-8 are an error
    /// and nothing is taken.
    pub fn take_new_lines(&mut self, data: &[u8]) -> (r: Option<Vec<String>>)
        requires
            old(self).position + data@.len() <= u64::MAX,
        ensures
            final(self).path == old(self).path,
            final(self).size == old(self).size,
            final(self).inode == old(self).inode,
            final(self).available == old(self).available,
            vstd::utf8::valid_utf8(data@) ==> (r matches Some(lines) && string_views(lines@) == spec_lines(
                vstd::utf8::decode_utf8(data@),
            ) && final(self).position == old(self).position + data@.len()),
            !vstd::utf8::valid_utf8(data@) ==> r is None && final(self).position == old(self).position,
    {
        match utf8_text(data) {
            Some(text) => {
                let chars = chars_of(text.as_str());
                let lines = split_lines(chars.as_slice());
                let mut out: Vec<String> = Vec::new();
                let mut i: usize = 0;
                while i < lines.len()
                    invariant
                        i <= lines.len(),
                        string_views(out@) == crate::text::char_views(lines@).take(i as int),
                    decreases lines.len() - i,
                {
                    let s = string_of(lines[i].as_slice());
                    proof {
                        assert(crate::text::char_views(lines@).take(i + 1) =~= crate::text::char_views(lines@).take(i as int).push(lines@[i as int]@));
                        assert(string_views(out@.push(s)) =~= string_views(out@).push(s@));
                    }
                    out.push(s);
                    i = i + 1;
                }
                assert(crate::text::char_views(lines@).take(lines.len() as int) =~= crate::text::char_views(lines@));
                self.position = self.position + data.len() as u64;
                Some(out)
            },
            None => None,
        }
    }
}


/// The state after one look at the file, and whether it changed: `None`
/// when the file could not be looked at (the state stays as it was).
pub open spec fn spec_observe(s: StateView, o: FileObservation, sticky: bool) -> (StateView, Option<bool>) {
    match o {
        FileObservation::Missing => (spec_missing(s), Some(s.available)),
        FileObservation::Present { size, inode, is_file } => {
            let (next, changed) = spec_refresh(s, size, inode, is_file, sticky);
            (next, Some(changed))
        },
        FileObservation::Failed(_) => (s, None),
    }
}

/// The paths of the states that one look each, with `obs`, changes; in
/// order.
pub open spec fn spec_changed_paths(states: Seq<FileState>, obs: Seq<FileObservation>, sticky: bool) -> Seq<Seq<char>>
    decreases states.len(),
{
    if states.len() == 0 {
        Seq::empty()
    } else {
        let rest = spec_changed_paths(states.drop_last(), obs.drop_last(), sticky);
        if spec_observe(states.last().state(), obs[states.len() - 1], sticky).1 == Some(true) {
            rest.push(states.last().path@)
        } else {
            rest
        }
    }
}

/// The paths of a list of file states.
pub open spec fn state_paths(v: Seq<FileState>) -> Seq<Seq<char>> {
    v.map_values(|s: FileState| s.path@)
}

/// Manager for tracking multiple file states, one per path.
#[derive(Debug)]
pub struct FileStateManager {
    states: Vec<FileState>,
}

impl FileStateManager {
    /// The tracked states, one per path.
    pub closed spec fn spec_states(&self) -> Seq<FileState> {
        self.states@
    }

    /// No path is tracked twice.
    pub closed spec fn wf(&self) -> bool {
        forall|i: int, j: int|
            0 <= i < j < self.states@.len() ==> #[trigger] self.states@[i].path@ != #[trigger] self.states@[j].path@
    }

    /// A well-formed manager tracks every path once: the states' paths are
    /// pairwise different, and looking up a tracked path finds its state.
    pub proof fn lemma_paths_unique(&self)
        requires
            self.wf(),
        ensures
            forall|i: int, j: int|
                0 <= i < j < self.spec_states().len() ==> #[trigger] self.spec_states()[i].path@
                    != #[trigger] self.spec_states()[j].path@,
            forall|i: int| 0 <= i < self.spec_states().len() ==> #[trigger] self.spec_lookup(self.spec_states()[i].path@)
                == Some(self.spec_states()[i]),
    {
        assert forall|i: int| 0 <= i < self.spec_states().len() implies #[trigger] self.spec_lookup(
            self.spec_states()[i].path@,
        ) == Some(self.spec_states()[i]) by {
            let p = self.spec_states()[i].path@;
            assert(self.spec_states()[i].path@ == p);
            let k = choose|k: int| 0 <= k < self.spec_states().len() && #[trigger] self.spec_states()[k].path@ == p;
            if k < i {
                assert(self.states@[k].path@ != self.states@[i].path@);
            } else if k > i {
                assert(self.states@[i].path@ != self.states@[k].path@);
            }
        }
    }

    /// The state tracked for `path`, if any.
    pub open spec fn spec_lookup(&self, path: Seq<char>) -> Option<FileState> {
        if exists|i: int| 0 <= i < self.spec_states().len() && #[trigger] self.spec_states()[i].path@ == path {
            let i = choose|i: int| 0 <= i < self.spec_states().len() && #[trigger] self.spec_states()[i].path@ == path;
            Some(self.spec_states()[i])
        } else {
            None
        }
    }

    /// Create a new FileStateManager.
    pub fn new() -> (m: Self)
        ensures
            m.wf(),
            m.spec_states() == Seq::<FileState>::empty(),
    {
        FileStateManager { states: Vec::new() }
    }

    fn index_of(&self, path: &str) -> (r: Option<usize>)
        requires
            self.wf(),
        ensures
            match r {
                Some(i) => i < self.spec_states().len() && self.spec_states()[i as int].path@ == path@,
                None => forall|k: int| 0 <= k < self.spec_states().len() ==> #[trigger] self.spec_states()[k].path@ != path@,
            },
    {
        let target = chars_of(path);
        let mut i: usize = 0;
        while i < self.states.len()
            invariant
                i <= self.states.len(),
                target@ == path@,
                forall|k: int| 0 <= k < i ==> #[trigger] self.states@[k].path@ != path@,
            decreases self.states.len() - i,
        {
            if crate::defaults::chars_equal(target.as_slice(), self.states[i].path.as_str()) {
                return Some(i);
            }
            i = i + 1;
        }
        None
    }

    /// Put `state` in place of the one for its path, or add it.
    fn insert(&mut self, state: FileState)
        requires
            old(self).wf(),
        ensures
            final(self).wf(),
            final(self).spec_lookup(state.path@) == Some(state),
            forall|p: Seq<char>| p != state.path@ ==> #[trigger] final(self).spec_lookup(p) == old(self).spec_lookup(p),
    {
        let ghost sp = state.path@;
        match self.index_of(state.path.as_str()) {
            Some(i) => {
                self.states.set(i, state);
                proof {
                    assert(self.states@[i as int].path@ == sp);
                    assert forall|p: Seq<char>| p != sp implies #[trigger] self.spec_lookup(p) == old(self).spec_lookup(p) by {
                        if exists|k: int| 0 <= k < old(self).spec_states().len() && #[trigger] old(self).spec_states()[k].path@ == p {
                            let k = choose|k: int| 0 <= k < old(self).spec_states().len() && #[trigger] old(self).spec_states()[k].path@ == p;
                            assert(self.spec_states()[k].path@ == p);
                            let k2 = choose|k: int| 0 <= k < self.spec_states().len() && #[trigger] self.spec_states()[k].path@ == p;
                            assert(k2 == k);
                        } else {
                            assert forall|k: int| 0 <= k < self.spec_states().len() implies #[trigger] self.spec_states()[k].path@ != p by {
                                if k != i {
                                    assert(self.spec_states()[k] == old(self).spec_states()[k]);
                                }
                            }
                        }
                    }
                    let k2 = choose|k: int| 0 <= k < self.spec_states().len() && #[trigger] self.spec_states()[k].path@ == sp;
                    assert(k2 == i as int);
                }
            },
            None => {
                self.states.push(state);
                proof {
                    let n = old(self).spec_states().len() as int;
                    assert(self.spec_states()[n].path@ == sp);
                    assert forall|p: Seq<char>| p != sp implies #[trigger] self.spec_lookup(p) == old(self).spec_lookup(p) by {
                        if exists|k: int| 0 <= k < old(self).spec_states().len() && #[trigger] old(self).spec_states()[k].path@ == p {
                            let k = choose|k: int| 0 <= k < old(self).spec_states().len() && #[trigger] old(self).spec_states()[k].path@ == p;
                            assert(self.spec_states()[k].path@ == p);
                            let k2 = choose|k: int| 0 <= k < self.spec_states().len() && #[trigger] self.spec_states()[k].path@ == p;
                            assert(k2 == k);
                        } else {
                            assert forall|k: int| 0 <= k < self.spec_states().len() implies #[trigger] self.spec_states()[k].path@ != p by {
                                if k < n {
                                    assert(self.spec_states()[k] == old(self).spec_states()[k]);
                                }
                            }
                        }
                    }
                    let k2 = choose|k: int| 0 <= k < self.spec_states().len() && #[trigger] self.spec_states()[k].path@ == sp;
                    assert(k2 == n);
                }
            },
        }
    }

    /// Add a file to be tracked, refreshed with what looking at it found.
    pub fn add_file(&mut self, path: String, observation: FileObservation, sticky: bool) -> (r: Result<(), TaleError>)
        requires
            old(self).wf(),
        ensures
            final(self).wf(),
            r is Ok ==> final(self).spec_lookup(path@) is Some,
            r is Err ==> final(self).spec_states() == old(self).spec_states(),
            forall|p: Seq<char>| p != path@ ==> #[trigger] final(self).spec_lookup(p) == old(self).spec_lookup(p),
            match observation {
                FileObservation::Failed(f) => r matches Err(e) && is_metadata_error(e, path@, f),
                FileObservation::Missing => r is Ok && (final(self).spec_lookup(path@) matches Some(s) && s.state() == spec_missing(
                    StateView { position: 0, size: 0, inode: None, available: false },
                )),
                FileObservation::Present { size, inode, is_file } => r is Ok && (final(self).spec_lookup(path@) matches Some(s)
                    && s.state() == spec_refresh(
                    StateView { position: 0, size: 0, inode: None, available: false },
                    size,
                    inode,
                    is_file,
                    sticky,
                ).0),
            },
    {
        let ghost gp = path@;
        let state = FileState::new_and_refresh(path, observation, sticky)?;
        self.insert(state);
        Ok(())
    }

    /// Add a file to be tracked, starting from its end.
    pub fn add_file_for_tailing(&mut self, path: String, observation: FileObservation, sticky: bool) -> (r: Result<
        (),
        TaleError,
    >)
        requires
            old(self).wf(),
        ensures
            final(self).wf(),
            r is Ok ==> (final(self).spec_lookup(path@) matches Some(s) && s.position == s.size),
            r is Err ==> final(self).spec_states() == old(self).spec_states(),
            forall|p: Seq<char>| p != path@ ==> #[trigger] final(self).spec_lookup(p) == old(self).spec_lookup(p),
            match observation {
                FileObservation::Failed(f) => r matches Err(e) && is_metadata_error(e, path@, f),
                FileObservation::Missing => r is Ok && (final(self).spec_lookup(path@) matches Some(s) && !s.available
                    && s.size == 0),
                FileObservation::Present { size, inode, is_file } => r is Ok && (final(self).spec_lookup(path@) matches Some(s) && ({
                    let next = spec_refresh(StateView { position: 0, size: 0, inode: None, available: false }, size, inode, is_file, sticky).0;
                    s.size == next.size && s.inode == next.inode && s.available == next.available
                })),
            },
    {
        let mut state = FileState::new_and_refresh(path, observation, sticky)?;
        let size = state.size;
        state.set_position(size);
        self.insert(state);
        Ok(())
    }

    /// Stop tailing this file.
    pub fn remove_file(&mut self, path: &str)
        requires
            old(self).wf(),
        ensures
            final(self).wf(),
            final(self).spec_lookup(path@) is None,
            forall|p: Seq<char>| p != path@ ==> #[trigger] final(self).spec_lookup(p) == old(self).spec_lookup(p),
    {
        match self.index_of(path) {
            Some(i) => {
                let ghost old_states = self.states@;
                self.states.remove(i);
                proof {
                    assert forall|k: int| 0 <= k < self.spec_states().len() implies #[trigger] self.spec_states()[k].path@ != path@ by {
                        if k < i {
                            assert(self.spec_states()[k] == old_states[k]);
                        } else {
                            assert(self.spec_states()[k] == old_states[k + 1]);
                        }
                    }
                    assert forall|p: Seq<char>| p != path@ implies #[trigger] self.spec_lookup(p) == old(self).spec_lookup(p) by {
                        if exists|k: int| 0 <= k < old(self).spec_states().len() && #[trigger] old(self).spec_states()[k].path@ == p {
                            let k = choose|k: int| 0 <= k < old(self).spec_states().len() && #[trigger] old(self).spec_states()[k].path@ == p;
                            assert(k != i);
                            let k1 = if k < i { k } else { k - 1 };
                            assert(self.spec_states()[k1].path@ == p);
                            let k2 = choose|k: int| 0 <= k < self.spec_states().len() && #[trigger] self.spec_states()[k].path@ == p;
                            let k3 = if k2 < i { k2 } else { k2 + 1 };
                            assert(old_states[k3].path@ == p);
                            assert(k3 == k);
                        } else {
                            assert forall|k: int| 0 <= k < self.spec_states().len() implies #[trigger] self.spec_states()[k].path@ != p by {
                                if k < i {
                                    assert(self.spec_states()[k] == old_states[k]);
                                } else {
                                    assert(self.spec_states()[k] == old_states[k + 1]);
                                }
                            }
                        }
                    }
                }
            },
            None => {},
        }
    }

    /// Get the state for a specific file.
    pub fn get_state(&self, path: &str) -> (r: Option<&FileState>)
        requires
            self.wf(),
        ensures
            match r {
                Some(s) => self.spec_lookup(path@) == Some(*s),
                None => self.spec_lookup(path@) is None,
            },
    {
        match self.index_of(path) {
            Some(i) => {
                proof {
                    let k2 = choose|k: int| 0 <= k < self.spec_states().len() && #[trigger] self.spec_states()[k].path@ == path@;
                    assert(k2 == i as int);
                }
                Some(&self.states[i])
            },
            None => None,
        }
    }

    /// Get mutable access to the state for a specific file. Whoever changes
    /// the state through it keeps its path.
    pub fn get_state_mut(&mut self, path: &str) -> (r: Option<&mut FileState>)
        requires
            old(self).wf(),
        ensures
            match r {
                Some(s) => exists|i: int|
                    0 <= i < old(self).spec_states().len() && old(self).spec_states()[i].path@ == path@
                        && *s == old(self).spec_states()[i]
                        && final(self).spec_states() == old(self).spec_states().update(i, *final(s)),
                None => old(self).spec_lookup(path@) is None && final(self).spec_states() == old(self).spec_states(),
            },
    {
        match self.index_of(path) {
            Some(i) => Some(&mut self.states[i]),
            None => None,
        }
    }

    /// Get all tracked file paths.
    pub fn tracked_files(&self) -> (v: Vec<String>)
        ensures
            string_views(v@) == state_paths(self.spec_states()),
    {
        let mut v: Vec<String> = Vec::new();
        let mut i: usize = 0;
        while i < self.states.len()
            invariant
                i <= self.states.len(),
                string_views(v@) == state_paths(self.states@).take(i as int),
            decreases self.states.len() - i,
        {
            let p = self.states[i].path.clone();
            proof {
                assert(state_paths(self.states@).take(i + 1) =~= state_paths(self.states@).take(i as int).push(self.states@[i as int].path@));
                assert(string_views(v@.push(p)) =~= string_views(v@).push(p@));
            }
            v.push(p);
            i = i + 1;
        }
        assert(state_paths(self.states@).take(self.states.len() as int) =~= state_paths(self.states@));
        v
    }

    /// Get all files that have new data available.
    pub fn files_with_new_data(&self) -> (v: Vec<String>)
        ensures
            string_views(v@) == spec_new_data_paths(self.spec_states()),
    {
        let mut v: Vec<String> = Vec::new();
        let mut i: usize = 0;
        while i < self.states.len()
            invariant
                i <= self.states.len(),
                string_views(v@) == spec_new_data_paths(self.states@.take(i as int)),
            decreases self.states.len() - i,
        {
            proof {
                assert(self.states@.take(i + 1).drop_last() =~= self.states@.take(i as int));
            }
            if self.states[i].has_new_data() {
                let p = self.states[i].path.clone();
                proof {
                    assert(string_views(v@.push(p)) =~= string_views(v@).push(p@));
                }
                v.push(p);
            }
            i = i + 1;
        }
        assert(self.states@.take(self.states.len() as int) =~= self.states@);
        v
    }

    /// Refresh every file state, in the order of `tracked_files`, with what
    /// looking at each file found; returns the paths of those that changed.
    /// A file that could not be looked at is left out and left as it was.
    pub fn refresh_all(&mut self, observations: Vec<FileObservation>, sticky: bool) -> (r: Result<Vec<String>, TaleError>)
        requires
            old(self).wf(),
            observations@.len() == old(self).spec_states().len(),
        ensures
            final(self).wf(),
            state_paths(final(self).spec_states()) == state_paths(old(self).spec_states()),
            final(self).spec_states().len() == old(self).spec_states().len(),
            forall|k: int| 0 <= k < old(self).spec_states().len() ==> (#[trigger] final(self).spec_states()[k]).path
                == old(self).spec_states()[k].path && final(self).spec_states()[k].state() == spec_observe(
                old(self).spec_states()[k].state(),
                observations@[k],
                sticky,
            ).0,
            r matches Ok(v) && string_views(v@) == spec_changed_paths(old(self).spec_states(), observations@, sticky),
    {
        let mut changed_files: Vec<String> = Vec::new();
        let ghost obs0 = observations@;
        let ghost s0 = self.states@;
        let mut observations = observations;
        let n = self.states.len();
        let mut i: usize = 0;
        proof {
            assert(s0.take(0) =~= Seq::<FileState>::empty());
            assert(obs0.take(0) =~= Seq::<FileObservation>::empty());
            assert(observations@ =~= obs0.skip(0));
        }
        while i < n
            invariant
                n == self.states.len() == s0.len() == obs0.len(),
                s0 == old(self).spec_states(),
                i <= n,
                observations@ == obs0.skip(i as int),
                self.wf(),
                state_paths(self.states@) == state_paths(s0),
                forall|k: int| 0 <= k < i ==> (#[trigger] self.states@[k]).path == s0[k].path && self.states@[k].state()
                    == spec_observe(s0[k].state(), obs0[k], sticky).0,
                forall|k: int| i <= k < n ==> #[trigger] self.states@[k] == s0[k],
                string_views(changed_files@) == spec_changed_paths(s0.take(i as int), obs0.take(i as int), sticky),
            decreases n - i,
        {
            let observation = observations.remove(0);
            proof {
                assert(observation == obs0[i as int]);
                assert(observations@ =~= obs0.skip(i + 1));
            }
            let mut state = FileState::new(String::new());
            std::mem::swap(&mut state, &mut self.states[i]);
            let ghost old_state = state;
            let result = state.refresh(observation, sticky);
            let path_copy = state.path.clone();
            let ghost before = self.states@;
            self.states.set(i, state);
            proof {
                assert(old_state == s0[i as int]);
                assert(state_paths(self.states@) =~= state_paths(before).update(i as int, path_copy@));
                let st = s0.take(i + 1);
                let ot = obs0.take(i + 1);
                assert(st.drop_last() =~= s0.take(i as int));
                assert(ot.drop_last() =~= obs0.take(i as int));
                assert(st.last() == s0[i as int]);
                assert(ot[st.len() - 1] == obs0[i as int]);
            }
            match result {
                Ok(changed) => {
                    if changed {
                        proof {
                            assert(string_views(changed_files@.push(path_copy)) =~= string_views(changed_files@).push(
                                path_copy@,
                            ));
                        }
                        changed_files.push(path_copy);
                    }
                },
                Err(_) => {},
            }
            i = i + 1;
        }
        proof {
            assert(s0.take(n as int) =~= s0);
            assert(obs0.take(n as int) =~= obs0);
        }
        Ok(changed_files)
    }
}

/// The paths of the files that have new data, in order.
pub open spec fn spec_new_data_paths(states: Seq<FileState>) -> Seq<Seq<char>>
    decreases states.len(),
{
    if states.len() == 0 {
        Seq::empty()
    } else {
        spec_new_data_paths(states.drop_last()) + if states.last().has_new_data_spec() {
            seq![states.last().path@]
        } else {
            Seq::empty()
        }
    }
}

impl FileState {
    pub open spec fn has_new_data_spec(&self) -> bool {
        self.available && self.size > self.position
    }
}

impl FileStateManager {
    /// Refresh the state of one tracked file with what looking at it found.
    /// `None` when the path is not tracked.
    pub fn refresh_file(&mut self, path: &str, observation: FileObservation, sticky: bool) -> (r: Option<Result<bool, TaleError>>)
        requires
            old(self).wf(),
        ensures
            final(self).wf(),
            state_paths(final(self).spec_states()) == state_paths(old(self).spec_states()),
            r is None <==> old(self).spec_lookup(path@) is None,
    {
        match self.index_of(path) {
            Some(i) => {
                let mut state = FileState::new(String::new());
                std::mem::swap(&mut state, &mut self.states[i]);
                let result = state.refresh(observation, sticky);
                let ghost before = self.states@;
                let ghost pv = state.path@;
                self.states.set(i, state);
                proof {
                    assert(state_paths(self.states@) =~= state_paths(before).update(i as int, pv));
                    assert(state_paths(before) =~= state_paths(old(self).states@).update(i as int, Seq::<char>::empty()));
                    assert(state_paths(self.states@) =~= state_paths(old(self).states@));
                    assert(old(self).spec_lookup(path@) is Some);
                }
                Some(result)
            },
            None => None,
        }
    }

    /// Takes the bytes read from one tracked file's position to its end and
    /// returns its new lines: the file's position moves past the bytes.
    /// `None` when the path is not tracked or the bytes are not valid UTF-8;
    /// then nothing changes. Other files are left as they were.
    pub fn take_new_lines(&mut self, path: &str, data: &[u8]) -> (r: Option<Vec<String>>)
        requires
            old(self).wf(),
            old(self).spec_lookup(path@) matches Some(s) ==> s.position + data@.len() <= u64::MAX,
        ensures
            final(self).wf(),
            state_paths(final(self).spec_states()) == state_paths(old(self).spec_states()),
            old(self).spec_lookup(path@) is None ==> r is None && final(self).spec_states() == old(self).spec_states(),
            r matches Some(lines) ==> vstd::utf8::valid_utf8(data@) && string_views(lines@) == spec_lines(vstd::utf8::decode_utf8(data@)),
            old(self).spec_lookup(path@) matches Some(s) ==> if vstd::utf8::valid_utf8(data@) {
                &&& r is Some
                &&& final(self).spec_lookup(path@) matches Some(t)
                &&& t.path == s.path
                &&& t.state() == (StateView { position: (s.position + data@.len()) as u64, ..s.state() })
            } else {
                r is None && final(self).spec_lookup(path@) == Some(s)
            },
            forall|p: Seq<char>| p != path@ ==> #[trigger] final(self).spec_lookup(p) == old(self).spec_lookup(p),
    {
        match self.index_of(path) {
            Some(i) => {
                proof {
                    self.lemma_paths_unique();
                }
                let mut state = FileState::new(String::new());
                std::mem::swap(&mut state, &mut self.states[i]);
                let ghost old_state = state;
                let result = state.take_new_lines(data);
                let ghost before = self.states@;
                let ghost pv = state.path@;
                self.states.set(i, state);
                proof {
                    assert(old_state == old(self).spec_states()[i as int]);
                    assert(state_paths(self.states@) =~= state_paths(before).update(i as int, pv));
                    assert(state_paths(self.states@) =~= state_paths(old(self).states@));
                    lemma_replace_at(*old(self), *self, i as int);
                }
                result
            },
            None => None,
        }
    }
}

/// Replacing the state at `i` by one with the same path keeps paths
/// unique; looking up that path finds the state at `i`, before and after;
/// every other path is found as before.
proof fn lemma_replace_at(a: FileStateManager, b: FileStateManager, i: int)
    requires
        a.wf(),
        0 <= i < a.spec_states().len(),
        b.spec_states().len() == a.spec_states().len(),
        b.spec_states()[i].path@ == a.spec_states()[i].path@,
        forall|k: int| 0 <= k < a.spec_states().len() && k != i ==> #[trigger] b.spec_states()[k] == a.spec_states()[k],
    ensures
        b.wf(),
        a.spec_lookup(a.spec_states()[i].path@) == Some(a.spec_states()[i]),
        b.spec_lookup(a.spec_states()[i].path@) == Some(b.spec_states()[i]),
        forall|p: Seq<char>| p != a.spec_states()[i].path@ ==> #[trigger] b.spec_lookup(p) == a.spec_lookup(p),
{
    let sa = a.spec_states();
    let sb = b.spec_states();
    let pi = sa[i].path@;
    assert forall|x: int, y: int| 0 <= x < y < sb.len() implies #[trigger] sb[x].path@ != #[trigger] sb[y].path@ by {
        assert(sb[x].path@ == sa[x].path@);
        assert(sb[y].path@ == sa[y].path@);
        assert(sa[x].path@ != sa[y].path@);
    }
    assert(b.wf());
    assert(sa[i].path@ == pi);
    let ka = choose|k: int| 0 <= k < sa.len() && #[trigger] sa[k].path@ == pi;
    if ka != i {
        if ka < i {
            assert(sa[ka].path@ != sa[i].path@);
        } else {
            assert(sa[i].path@ != sa[ka].path@);
        }
    }
    assert(sb[i].path@ == pi);
    let kb = choose|k: int| 0 <= k < sb.len() && #[trigger] sb[k].path@ == pi;
    if kb != i {
        assert(sb[kb].path@ == sa[kb].path@);
        if kb < i {
            assert(sa[kb].path@ != sa[i].path@);
        } else {
            assert(sa[i].path@ != sa[kb].path@);
        }
    }
    assert forall|p: Seq<char>| p != pi implies #[trigger] b.spec_lookup(p) == a.spec_lookup(p) by {
        if exists|k: int| 0 <= k < sa.len() && #[trigger] sa[k].path@ == p {
            let k = choose|k: int| 0 <= k < sa.len() && #[trigger] sa[k].path@ == p;
            assert(k != i);
            assert(sb[k].path@ == p);
            let k2 = choose|k: int| 0 <= k < sb.len() && #[trigger] sb[k].path@ == p;
            assert(k2 != i);
            assert(sb[k2].path@ == sa[k2].path@);
            if k2 != k {
                if k2 < k {
                    assert(sa[k2].path@ != sa[k].path@);
                } else {
                    assert(sa[k].path@ != sa[k2].path@);
                }
            }
        } else {
            assert forall|k: int| 0 <= k < sb.len() implies #[trigger] sb[k].path@ != p by {
                if k != i {
                    assert(sb[k] == sa[k]);
                }
            }
        }
    }
}

impl Default for FileStateManager {
    fn default() -> (m: Self)
        ensures
            m.wf(),
            m.spec_states() == Seq::<FileState>::empty(),
    {
        Self::new()
    }
}

} // verus!
