//! Error values of tale, and the file-name similarity used to suggest what
//! the user might have meant when a file is missing.

use vstd::prelude::*;

use crate::logpatterns::columns::string_views;
use crate::text::{chars_of, spec_to_lowercase, string_of, to_lowercase, utf8_len};

verus! {

/// The character at position `i` of `s`, if there is one.
pub open spec fn char_at(s: Seq<char>, i: int) -> Option<char> {
    if 0 <= i < s.len() { Some(s[i]) } else { None }
}

/// The cost of aligning position `i - 1` of `a` with position `j - 1` of `b`.
pub open spec fn subst_cost(a: Seq<char>, b: Seq<char>, i: int, j: int) -> nat {
    if char_at(a, i - 1) == char_at(b, j - 1) { 0 } else { 1 }
}

pub open spec fn min_nat(x: nat, y: nat) -> nat {
    if x <= y { x } else { y }
}

/// The edit distance table: the cost of turning the first `i` positions of
/// `a` into the first `j` positions of `b` by insertions, deletions and
/// substitutions of one position each.
pub open spec fn spec_edit_table(a: Seq<char>, b: Seq<char>, i: nat, j: nat) -> nat
    decreases i + j,
{
    if i == 0 {
        j
    } else if j == 0 {
        i
    } else {
        min_nat(
            min_nat(
                spec_edit_table(a, b, (i - 1) as nat, j) + 1,
                spec_edit_table(a, b, i, (j - 1) as nat) + 1,
            ),
            spec_edit_table(a, b, (i - 1) as nat, (j - 1) as nat) + subst_cost(a, b, i as int, j as int),
        )
    }
}

/// The edit distance of two strings. Positions run over the UTF-8 byte
/// length of each string and compare the character at that position (none
/// past the last character), which is Levenshtein distance on ASCII text.
pub open spec fn spec_edit_distance(a: Seq<char>, b: Seq<char>) -> nat {
    spec_edit_table(a, b, utf8_len(a), utf8_len(b))
}

proof fn lemma_edit_table_bound(a: Seq<char>, b: Seq<char>, i: nat, j: nat)
    ensures
        spec_edit_table(a, b, i, j) <= if i >= j { i } else { j },
    decreases i + j,
{
    if i > 0 && j > 0 {
        lemma_edit_table_bound(a, b, (i - 1) as nat, (j - 1) as nat);
    }
}

proof fn lemma_edit_table_lower(a: Seq<char>, b: Seq<char>, i: nat, j: nat)
    ensures
        spec_edit_table(a, b, i, j) >= if i >= j { i - j } else { j - i },
    decreases i + j,
{
    if i > 0 && j > 0 {
        lemma_edit_table_lower(a, b, (i - 1) as nat, j);
        lemma_edit_table_lower(a, b, i, (j - 1) as nat);
        lemma_edit_table_lower(a, b, (i - 1) as nat, (j - 1) as nat);
    }
}

proof fn lemma_edit_table_symmetric(a: Seq<char>, b: Seq<char>, i: nat, j: nat)
    ensures
        spec_edit_table(a, b, i, j) == spec_edit_table(b, a, j, i),
    decreases i + j,
{
    if i > 0 && j > 0 {
        lemma_edit_table_symmetric(a, b, (i - 1) as nat, j);
        lemma_edit_table_symmetric(a, b, i, (j - 1) as nat);
        lemma_edit_table_symmetric(a, b, (i - 1) as nat, (j - 1) as nat);
        assert(subst_cost(a, b, i as int, j as int) == subst_cost(b, a, j as int, i as int));
    }
}

proof fn lemma_edit_table_diagonal(a: Seq<char>, i: nat)
    ensures
        spec_edit_table(a, a, i, i) == 0,
    decreases i,
{
    if i > 0 {
        lemma_edit_table_diagonal(a, (i - 1) as nat);
    }
}

proof fn lemma_edit_table_zero(a: Seq<char>, b: Seq<char>, i: nat, j: nat)
    requires
        spec_edit_table(a, b, i, j) == 0,
    ensures
        i == j,
        forall|k: int| 0 <= k < i ==> #[trigger] char_at(a, k) == char_at(b, k),
    decreases i + j,
{
    lemma_edit_table_lower(a, b, i, j);
    if i > 0 && j > 0 {
        lemma_edit_table_lower(a, b, (i - 1) as nat, j);
        lemma_edit_table_lower(a, b, i, (j - 1) as nat);
        assert(spec_edit_table(a, b, (i - 1) as nat, (j - 1) as nat) == 0);
        assert(subst_cost(a, b, i as int, j as int) == 0);
        lemma_edit_table_zero(a, b, (i - 1) as nat, (j - 1) as nat);
        assert forall|k: int| 0 <= k < i implies #[trigger] char_at(a, k) == char_at(b, k) by {
            if k == i - 1 {
                assert(char_at(a, i - 1) == char_at(b, j - 1));
            }
        }
    }
}

proof fn lemma_utf8_len_at_least(s: Seq<char>)
    ensures
        utf8_len(s) >= s.len(),
    decreases s.len(),
{
    if s.len() > 0 {
        lemma_utf8_len_at_least(s.drop_first());
        assert(vstd::utf8::encode_scalar(s[0] as u32).len() >= 1);
    }
}

/// The Levenshtein distance of two character sequences: the fewest
/// insertions, deletions and substitutions of one character each that turn
/// `a` into `b`, by its recurrence on the last characters.
pub open spec fn spec_levenshtein(a: Seq<char>, b: Seq<char>) -> nat
    decreases a.len() + b.len(),
{
    if a.len() == 0 {
        b.len()
    } else if b.len() == 0 {
        a.len()
    } else {
        min_nat(
            min_nat(spec_levenshtein(a.drop_last(), b) + 1, spec_levenshtein(a, b.drop_last()) + 1),
            spec_levenshtein(a.drop_last(), b.drop_last()) + if a.last() == b.last() { 0nat } else { 1nat },
        )
    }
}

proof fn lemma_edit_table_levenshtein(a: Seq<char>, b: Seq<char>, i: nat, j: nat)
    requires
        i <= a.len(),
        j <= b.len(),
    ensures
        spec_edit_table(a, b, i, j) == spec_levenshtein(a.take(i as int), b.take(j as int)),
    decreases i + j,
{
    let ai = a.take(i as int);
    let bj = b.take(j as int);
    if i > 0 && j > 0 {
        lemma_edit_table_levenshtein(a, b, (i - 1) as nat, j);
        lemma_edit_table_levenshtein(a, b, i, (j - 1) as nat);
        lemma_edit_table_levenshtein(a, b, (i - 1) as nat, (j - 1) as nat);
        assert(ai.drop_last() =~= a.take(i - 1));
        assert(bj.drop_last() =~= b.take(j - 1));
        assert(ai.last() == a[i - 1]);
        assert(bj.last() == b[j - 1]);
        assert(char_at(a, i - 1) == Some(a[i - 1]));
        assert(char_at(b, j - 1) == Some(b[j - 1]));
    }
}

/// On ASCII text, where every character is one byte, the edit distance is
/// the Levenshtein distance.
pub proof fn law_edit_distance_is_levenshtein_on_ascii(a: Seq<char>, b: Seq<char>)
    requires
        vstd::utf8::is_ascii_chars(a),
        vstd::utf8::is_ascii_chars(b),
    ensures
        spec_edit_distance(a, b) == spec_levenshtein(a, b),
{
    vstd::utf8::is_ascii_chars_encode_utf8(a);
    vstd::utf8::is_ascii_chars_encode_utf8(b);
    lemma_edit_table_levenshtein(a, b, a.len(), b.len());
    assert(a.take(a.len() as int) =~= a);
    assert(b.take(b.len() as int) =~= b);
}

/// Edit distance does not depend on which string comes first.
pub proof fn law_edit_distance_symmetric(a: Seq<char>, b: Seq<char>)
    ensures
        spec_edit_distance(a, b) == spec_edit_distance(b, a),
{
    lemma_edit_table_symmetric(a, b, utf8_len(a), utf8_len(b));
}

/// Two strings are no edits apart exactly when they are equal.
pub proof fn law_edit_distance_zero_iff_equal(a: Seq<char>, b: Seq<char>)
    ensures
        spec_edit_distance(a, b) == 0 <==> a == b,
{
    if a == b {
        lemma_edit_table_diagonal(a, utf8_len(a));
    }
    if spec_edit_distance(a, b) == 0 {
        let n = utf8_len(a);
        lemma_edit_table_zero(a, b, n, utf8_len(b));
        lemma_utf8_len_at_least(a);
        lemma_utf8_len_at_least(b);
        if a.len() < b.len() {
            assert(char_at(a, a.len() as int) == char_at(b, a.len() as int));
        } else if b.len() < a.len() {
            assert(char_at(a, b.len() as int) == char_at(b, b.len() as int));
        }
        assert forall|k: int| 0 <= k < a.len() implies a[k] == b[k] by {
            assert(char_at(a, k) == char_at(b, k));
        }
        assert(a =~= b);
    }
}

/// The edit distance is at most the longer of the two lengths, in bytes.
pub proof fn law_edit_distance_bounded(a: Seq<char>, b: Seq<char>)
    ensures
        spec_edit_distance(a, b) <= if utf8_len(a) >= utf8_len(b) { utf8_len(a) } else { utf8_len(b) },
{
    lemma_edit_table_bound(a, b, utf8_len(a), utf8_len(b));
}

/// Simple edit distance calculation.
pub fn edit_distance(s1: &str, s2: &str) -> (d: usize)
    requires
        utf8_len(s1@) < usize::MAX,
        utf8_len(s2@) < usize::MAX,
    ensures
        d == spec_edit_distance(s1@, s2@),
{
    let len1 = s1.len();
    let len2 = s2.len();
    let a = chars_of(s1);
    let b = chars_of(s2);
    let ghost ga = s1@;
    let ghost gb = s2@;
    let mut prev: Vec<usize> = Vec::new();
    let mut j: usize = 0;
    while j <= len2
        invariant
            j <= len2 + 1,
            len2 < usize::MAX,
            prev.len() == j,
            forall|k: int| 0 <= k < j ==> prev[k] == spec_edit_table(ga, gb, 0, k as nat),
        decreases len2 + 1 - j,
    {
        prev.push(j);
        j = j + 1;
    }
    let mut i: usize = 1;
    while i <= len1
        invariant
            1 <= i <= len1 + 1,
            len1 < usize::MAX,
            len2 < usize::MAX,
            a@ == ga,
            b@ == gb,
            prev.len() == len2 + 1,
            forall|k: int| 0 <= k <= len2 ==> prev[k] == spec_edit_table(ga, gb, (i - 1) as nat, k as nat),
        decreases len1 + 1 - i,
    {
        let mut cur: Vec<usize> = Vec::new();
        cur.push(i);
        let mut j: usize = 1;
        while j <= len2
            invariant
                1 <= i <= len1,
                1 <= j <= len2 + 1,
                len1 < usize::MAX,
                len2 < usize::MAX,
                a@ == ga,
                b@ == gb,
                prev.len() == len2 + 1,
                cur.len() == j,
                forall|k: int| 0 <= k <= len2 ==> prev[k] == spec_edit_table(ga, gb, (i - 1) as nat, k as nat),
                forall|k: int| 0 <= k < j ==> cur[k] == spec_edit_table(ga, gb, i as nat, k as nat),
            decreases len2 + 1 - j,
        {
            proof {
                lemma_edit_table_bound(ga, gb, (i - 1) as nat, j as nat);
                lemma_edit_table_bound(ga, gb, i as nat, (j - 1) as nat);
                lemma_edit_table_bound(ga, gb, (i - 1) as nat, (j - 1) as nat);
            }
            let ca: Option<char> = if i - 1 < a.len() { Some(a[i - 1]) } else { None };
            let cb: Option<char> = if j - 1 < b.len() { Some(b[j - 1]) } else { None };
            let cost: usize = if ca == cb { 0 } else { 1 };
            let del = prev[j] + 1;
            let ins = cur[j - 1] + 1;
            let sub = prev[j - 1] + cost;
            let best_edit = if del <= ins { del } else { ins };
            let best = if best_edit <= sub { best_edit } else { sub };
            cur.push(best);
            j = j + 1;
        }
        prev = cur;
        i = i + 1;
    }
    prev[len2]
}

} // verus!

verus! {

/// Whether `candidate` looks like a typo of `target`: their lowercase forms
/// are between one and three edits apart.
pub open spec fn spec_is_similar(target: Seq<char>, candidate: Seq<char>) -> bool {
    let d = spec_edit_distance(spec_to_lowercase(target), spec_to_lowercase(candidate));
    0 < d && d <= 3
}

/// Simple similarity check (case-insensitive, 1-3 character differences).
pub fn is_similar(target: &str, candidate: &str) -> (r: bool)
    ensures
        r == spec_is_similar(target@, candidate@),
{
    let target = to_lowercase(target);
    let candidate = to_lowercase(candidate);
    let distance = edit_distance(target.as_str(), candidate.as_str());
    distance <= 3 && distance > 0
}

} // verus!

verus! {

/// Main error type for tale operations.
#[derive(Debug)]
pub enum TaleError {
    /// File-related errors with helpful context.
    File(Box<FileError>),
    /// JSON parsing errors with location information.
    Json(Box<JsonError>),
    /// Configuration errors.
    Config(Box<ConfigError>),
    /// I/O errors with context.
    Io(Box<IoError>),
    /// Memory management errors.
    MemoryError(String),
    /// An invalid glob pattern, with the pattern library's message.
    GlobPattern(String),
    /// A batch of lines could not be handed to the output side.
    BatchedLineSendVec,
    /// A single line could not be handed to the batcher.
    BatchedLineSendSingle,
    /// The line channel of the batcher was missing.
    LineReceiver,
    /// The batch channel of the batcher was missing.
    BatchSender,
    /// A file-watching error, with the watcher's message.
    NotifyError(String),
}

/// The kind of filesystem object found where a regular file was expected.
#[derive(PartialEq, Eq, Structural, Clone, Copy, Debug)]
pub enum FileKind {
    Directory,
    SymbolicLink,
    Special,
}

/// File-related error types.
#[derive(Debug)]
pub enum FileError {
    /// File not found, with suggestions.
    NotFound { path: String, similar_files: Vec<String> },
    /// Permission denied, with actionable advice.
    PermissionDenied { path: String, suggestion: String },
    /// Not a regular file (directory, device, etc.).
    NotAFile { path: String, actual_type: String },
}

/// JSON parsing error types.
#[derive(Debug)]
pub enum JsonError {
    /// Invalid JSON syntax; the span is a byte offset and a length in `src`.
    InvalidSyntax { src: String, span_offset: usize, span_len: usize, details: String },
    /// Missing required field.
    MissingField { field: String, src: String, span_offset: usize, span_len: usize },
}

/// Configuration error types.
#[derive(Debug)]
pub enum ConfigError {
    /// Invalid argument combination.
    InvalidArgs { message: String, conflicting_args: Vec<String> },
    /// Invalid offset value.
    InvalidOffset { value: String, reason: String },
}

/// The kinds of I/O failure that tale tells apart.
#[derive(PartialEq, Eq, Structural, Clone, Copy, Debug)]
pub enum IoErrorKind {
    NotFound,
    PermissionDenied,
    Other,
}

/// An I/O failure as the operating system reported it.
#[derive(Debug)]
pub struct IoFailure {
    pub kind: IoErrorKind,
    pub message: String,
}

/// I/O error wrapper with context.
#[derive(Debug)]
pub enum IoError {
    /// Generic I/O error with context.
    OperationFailed { operation: String, path: Option<String>, source: IoFailure },
}

impl FileError {
    /// Create a file not found error with suggestions.
    pub fn not_found_with_suggestions(path: String, similar_files: Vec<String>) -> (e: Self)
        ensures
            e == (FileError::NotFound { path, similar_files }),
    {
        FileError::NotFound { path, similar_files }
    }

    /// Create a permission denied error; without a suggestion it advises to
    /// check the file permissions.
    pub fn permission_denied_with_suggestion(path: String, suggestion: Option<String>) -> (e: Self)
        ensures
            e matches FileError::PermissionDenied { path: p, suggestion: s } && p == path && s@ == (
            match suggestion {
                Some(given) => given@,
                None => "Check file permissions"@,
            }),
    {
        let suggestion = match suggestion {
            Some(given) => given,
            None => "Check file permissions".to_owned(),
        };
        FileError::PermissionDenied { path, suggestion }
    }

    /// Create a not-a-file error, naming what was found at the path.
    pub fn not_a_file_with_type(path: String, kind: FileKind) -> (e: Self)
        ensures
            e matches FileError::NotAFile { path: p, actual_type: t } && p == path && t@ == (
            match kind {
                FileKind::Directory => "directory"@,
                FileKind::SymbolicLink => "symbolic link"@,
                FileKind::Special => "special file"@,
            }),
    {
        let actual_type = match kind {
            FileKind::Directory => "directory".to_owned(),
            FileKind::SymbolicLink => "symbolic link".to_owned(),
            FileKind::Special => "special file".to_owned(),
        };
        FileError::NotAFile { path, actual_type }
    }
}

impl JsonError {
    /// Create a JSON syntax error with its source location.
    pub fn invalid_syntax_at(src: String, offset: usize, len: usize, details: String) -> (e: Self)
        ensures
            e == (JsonError::InvalidSyntax { src, span_offset: offset, span_len: len, details }),
    {
        JsonError::InvalidSyntax { src, span_offset: offset, span_len: len, details }
    }
}

/// Helper trait for attaching an operation and a path to an I/O failure.
pub trait IoErrorExt<T>: Sized {
    fn with_context(self, operation: &str, path: Option<&str>) -> Result<T, IoError>;
}

impl<T> IoErrorExt<T> for Result<T, IoFailure> {
    fn with_context(self, operation: &str, path: Option<&str>) -> (r: Result<T, IoError>)
        ensures
            match self {
                Ok(v) => r == Ok::<T, IoError>(v),
                Err(source) => r matches Err(IoError::OperationFailed { operation: op, path: p, source: s })
                    && op@ == operation@ && s == source && (match path {
                        Some(given) => p matches Some(q) && q@ == given@,
                        None => p is None,
                    }),
            },
    {
        match self {
            Ok(v) => Ok(v),
            Err(source) => {
                let p = match path {
                    Some(given) => Some(given.to_owned()),
                    None => None,
                };
                Err(IoError::OperationFailed { operation: operation.to_owned(), path: p, source })
            }
        }
    }
}

/// The entries of a directory as (file name, path) pairs, as text.
pub open spec fn entry_views(v: Seq<(String, String)>) -> Seq<(Seq<char>, Seq<char>)> {
    v.map_values(|e: (String, String)| (e.0@, e.1@))
}

/// The entries whose name is not `target` but looks like a typo of it, in
/// listing order.
pub open spec fn spec_similar_entries(target: Seq<char>, entries: Seq<(Seq<char>, Seq<char>)>) -> Seq<
    (Seq<char>, Seq<char>),
>
    decreases entries.len(),
{
    if entries.len() == 0 {
        Seq::empty()
    } else {
        let rest = spec_similar_entries(target, entries.drop_last());
        let e = entries.last();
        if e.0 != target && spec_is_similar(target, e.0) {
            rest.push(e)
        } else {
            rest
        }
    }
}

/// The largest edit distance from `target` to a name of `entries` (zero
/// for none).
pub open spec fn spec_max_distance(target: Seq<char>, entries: Seq<(Seq<char>, Seq<char>)>) -> nat
    decreases entries.len(),
{
    if entries.len() == 0 {
        0
    } else {
        let rest = spec_max_distance(target, entries.drop_last());
        let d = spec_edit_distance(target, entries.last().0);
        if d > rest { d } else { rest }
    }
}

/// The paths of the entries whose name is `d` edits from `target`, in
/// listing order.
pub open spec fn spec_at_distance(target: Seq<char>, entries: Seq<(Seq<char>, Seq<char>)>, d: nat) -> Seq<Seq<char>>
    decreases entries.len(),
{
    if entries.len() == 0 {
        Seq::empty()
    } else {
        let rest = spec_at_distance(target, entries.drop_last(), d);
        if spec_edit_distance(target, entries.last().0) == d {
            rest.push(entries.last().1)
        } else {
            rest
        }
    }
}

/// The paths of the entries whose name is fewer than `d` edits from
/// `target`: nearest first, and in listing order among equally near ones.
pub open spec fn spec_nearer_than(target: Seq<char>, entries: Seq<(Seq<char>, Seq<char>)>, d: nat) -> Seq<Seq<char>>
    decreases d,
{
    if d == 0 {
        Seq::empty()
    } else {
        spec_nearer_than(target, entries, (d - 1) as nat) + spec_at_distance(target, entries, (d - 1) as nat)
    }
}

/// The suggestions for a missing file named `target`, from the entries of
/// its directory: the names that look like a typo of it, nearest first by
/// edit distance (in listing order among equally near ones), at most three.
pub open spec fn spec_find_similar(target: Seq<char>, entries: Seq<(Seq<char>, Seq<char>)>) -> Seq<Seq<char>> {
    let similar = spec_similar_entries(target, entries);
    let ordered = spec_nearer_than(target, similar, spec_max_distance(target, similar) + 1);
    if ordered.len() <= 3 { ordered } else { ordered.take(3) }
}

proof fn lemma_max_distance_bound(target: Seq<char>, entries: Seq<(Seq<char>, Seq<char>)>, bound: nat)
    requires
        utf8_len(target) <= bound,
        forall|k: int| 0 <= k < entries.len() ==> utf8_len(#[trigger] entries[k].0) <= bound,
    ensures
        spec_max_distance(target, entries) <= bound,
    decreases entries.len(),
{
    if entries.len() > 0 {
        let last = entries.last();
        assert(utf8_len(entries[entries.len() - 1].0) <= bound);
        lemma_edit_table_bound(target, last.0, utf8_len(target), utf8_len(last.0));
        let init = entries.drop_last();
        assert forall|k: int| 0 <= k < init.len() implies utf8_len(#[trigger] init[k].0) <= bound by {
            assert(init[k] == entries[k]);
        }
        lemma_max_distance_bound(target, init, bound);
    }
}

/// The paths to suggest for a missing file named `target_name`, given the
/// entries of its directory as (file name, path) pairs in listing order:
/// see `spec_find_similar`.
pub fn find_similar_files(target_name: &str, entries: &Vec<(String, String)>) -> (r: Vec<String>)
    requires
        utf8_len(target_name@) < usize::MAX,
        forall|k: int| 0 <= k < entries@.len() ==> utf8_len(#[trigger] entries@[k].0@) < usize::MAX,
    ensures
        string_views(r@) == spec_find_similar(target_name@, entry_views(entries@)),
{
    let ghost t = target_name@;
    let ghost ev = entry_views(entries@);
    let target_chars = chars_of(target_name);
    let mut names: Vec<String> = Vec::new();
    let mut paths: Vec<String> = Vec::new();
    let ghost mut sim: Seq<(Seq<char>, Seq<char>)> = Seq::empty();
    let mut i: usize = 0;
    while i < entries.len()
        invariant
            i <= entries.len(),
            ev == entry_views(entries@),
            t == target_name@,
            target_chars@ == t,
            sim == spec_similar_entries(t, ev.take(i as int)),
            names@.len() == sim.len(),
            paths@.len() == sim.len(),
            forall|k: int| 0 <= k < sim.len() ==> #[trigger] names@[k]@ == sim[k].0,
            forall|k: int| 0 <= k < sim.len() ==> #[trigger] paths@[k]@ == sim[k].1,
            forall|k: int| 0 <= k < sim.len() ==> utf8_len(#[trigger] sim[k].0) < usize::MAX,
            forall|k: int| 0 <= k < entries@.len() ==> utf8_len(#[trigger] entries@[k].0@) < usize::MAX,
        decreases entries.len() - i,
    {
        let name = &entries[i].0;
        let path = &entries[i].1;
        proof {
            assert(ev.take(i + 1).drop_last() =~= ev.take(i as int));
            assert(ev.take(i + 1).last() == (name@, path@));
        }
        let same = crate::defaults::chars_equal(target_chars.as_slice(), name.as_str());
        if !same && is_similar(target_name, name.as_str()) {
            proof {
                assert(utf8_len(entries@[i as int].0@) < usize::MAX);
                sim = sim.push((name@, path@));
            }
            names.push(name.clone());
            paths.push(path.clone());
        }
        i = i + 1;
    }
    proof {
        assert(ev.take(entries.len() as int) =~= ev);
    }
    let ghost similar = sim;
    let mut dists: Vec<usize> = Vec::new();
    let mut max: usize = 0;
    let mut k: usize = 0;
    while k < names.len()
        invariant
            k <= names.len() == paths.len() == similar.len(),
            t == target_name@,
            utf8_len(t) < usize::MAX,
            forall|j: int| 0 <= j < similar.len() ==> #[trigger] names@[j]@ == similar[j].0,
            forall|j: int| 0 <= j < similar.len() ==> #[trigger] paths@[j]@ == similar[j].1,
            forall|j: int| 0 <= j < similar.len() ==> utf8_len(#[trigger] similar[j].0) < usize::MAX,
            dists@.len() == k,
            forall|j: int| 0 <= j < k ==> #[trigger] dists@[j] == spec_edit_distance(t, similar[j].0),
            max == spec_max_distance(t, similar.take(k as int)),
        decreases names.len() - k,
    {
        assert(utf8_len(similar[k as int].0) < usize::MAX);
        let d = edit_distance(target_name, names[k].as_str());
        proof {
            assert(similar.take(k + 1).drop_last() =~= similar.take(k as int));
            assert(similar.take(k + 1).last() == similar[k as int]);
        }
        if d > max {
            max = d;
        }
        dists.push(d);
        k = k + 1;
    }
    proof {
        assert(similar.take(names.len() as int) =~= similar);
        lemma_max_distance_bound(t, similar, (usize::MAX - 1) as nat);
    }
    let mut ordered: Vec<String> = Vec::new();
    let mut d: usize = 0;
    while d <= max
        invariant
            d <= max + 1,
            max < usize::MAX,
            max == spec_max_distance(t, similar),
            names@.len() == paths@.len() == similar.len() == dists@.len(),
            forall|j: int| 0 <= j < similar.len() ==> #[trigger] paths@[j]@ == similar[j].1,
            forall|j: int| 0 <= j < similar.len() ==> #[trigger] dists@[j] == spec_edit_distance(t, similar[j].0),
            string_views(ordered@) == spec_nearer_than(t, similar, d as nat),
        decreases max + 1 - d,
    {
        let mut j: usize = 0;
        while j < paths.len()
            invariant
                j <= paths.len() == similar.len() == dists@.len(),
                d <= max,
                forall|x: int| 0 <= x < similar.len() ==> #[trigger] paths@[x]@ == similar[x].1,
                forall|x: int| 0 <= x < similar.len() ==> #[trigger] dists@[x] == spec_edit_distance(t, similar[x].0),
                string_views(ordered@) == spec_nearer_than(t, similar, d as nat) + spec_at_distance(
                    t,
                    similar.take(j as int),
                    d as nat,
                ),
            decreases paths.len() - j,
        {
            proof {
                assert(similar.take(j + 1).drop_last() =~= similar.take(j as int));
                assert(similar.take(j + 1).last() == similar[j as int]);
            }
            if dists[j] == d {
                let p = paths[j].clone();
                proof {
                    assert(string_views(ordered@.push(p)) =~= string_views(ordered@).push(p@));
                }
                ordered.push(p);
            }
            j = j + 1;
        }
        proof {
            assert(similar.take(paths.len() as int) =~= similar);
        }
        d = d + 1;
    }
    let ghost all = spec_nearer_than(t, similar, (max + 1) as nat);
    let mut result: Vec<String> = Vec::new();
    let mut m: usize = 0;
    while m < ordered.len() && m < 3
        invariant
            m <= ordered.len(),
            m <= 3,
            string_views(ordered@) == all,
            string_views(result@) == all.take(m as int),
        decreases ordered.len() - m,
    {
        let p = ordered[m].clone();
        proof {
            assert(all.take(m + 1) =~= all.take(m as int).push(p@));
            assert(string_views(result@.push(p)) =~= string_views(result@).push(p@));
        }
        result.push(p);
        m = m + 1;
    }
    proof {
        if all.len() <= 3 {
            assert(all.take(m as int) =~= all);
        }
    }
    result
}

/// The advice attached to a permission failure on `path`.
pub open spec fn spec_permission_suggestion(path: Seq<char>, unix: bool) -> Seq<char> {
    if unix { "Try: chmod +r "@ + path } else { "Check file permissions in Properties"@ }
}

/// Turns a permission failure on opening `path` into a file error that says
/// how to fix it; every other error is returned as it was.
pub fn enhance_error_context(error: TaleError, path: &str, unix: bool) -> (r: TaleError)
    ensures
        match error {
            TaleError::Io(io) => match *io {
                IoError::OperationFailed { source, .. } => if source.kind == IoErrorKind::PermissionDenied {
                    r matches TaleError::File(f) && *f matches FileError::PermissionDenied { path: p, suggestion: s }
                        && p@ == path@ && s@ == spec_permission_suggestion(path@, unix)
                } else {
                    r == error
                },
            },
            _ => r == error,
        },
{
    match error {
        TaleError::Io(io_error) => {
            let is_permission = match &*io_error {
                IoError::OperationFailed { source, .. } => source.kind == IoErrorKind::PermissionDenied,
            };
            if is_permission {
                let suggestion = if unix {
                    let mut text = chars_of("Try: chmod +r ");
                    let mut p = chars_of(path);
                    text.append(&mut p);
                    string_of(text.as_slice())
                } else {
                    "Check file permissions in Properties".to_owned()
                };
                TaleError::File(Box::new(FileError::permission_denied_with_suggestion(path.to_owned(), Some(suggestion))))
            } else {
                TaleError::Io(io_error)
            }
        }
        other => other,
    }
}

} // verus!
