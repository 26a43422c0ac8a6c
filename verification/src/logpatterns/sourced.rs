//! A parsed line with the file and line number it came from, to weave the
//! lines of several files together in time order.

use bytes::BytesMut;
use vstd::prelude::*;

use crate::readers::follow::{path_file_name, std_path_file_name};
use crate::text::{buffer_bytes, buffer_extend, buffer_len};
use super::columns::string_views;
use super::formatting::{LayoutMetrics, Timestamp};
use super::{spec_printable_cells, spec_printable_render, spec_printable_timestamp, Printable};

verus! {

/// A parsed line, with the file it came from and its line number there
/// (counted from 0).
#[derive(Debug)]
pub struct SourcedLine {
    pub parsed: Printable,
    pub source_file: String,
    pub line_number: usize,
}

/// The order of two paths as `Path::cmp` gives it (component by
/// component): -1, 0 or 1.
pub uninterp spec fn path_order(a: Seq<char>, b: Seq<char>) -> int;

/// `Path::new(a).cmp(Path::new(b))` as -1, 0 or 1; swapping the paths
/// reverses the order, as `Ord` requires.
#[verifier::external_body]
fn compare_paths(a: &str, b: &str) -> (r: i8)
    ensures
        r == path_order(a@, b@),
        -1 <= r <= 1,
        r == -path_order(b@, a@),
{
    match std::path::Path::new(a).cmp(std::path::Path::new(b)) {
        std::cmp::Ordering::Less => -1,
        std::cmp::Ordering::Equal => 0,
        std::cmp::Ordering::Greater => 1,
    }
}

/// The key that orders lines from several files: a line with a timestamp
/// by its timestamp, any other by its file and line number, after all the
/// timestamped ones.
#[derive(Debug)]
pub enum SortKey {
    Timestamp(Timestamp),
    FileOrder { file: String, line: usize },
}

/// How two keys compare: -1, 0 or 1.
pub open spec fn key_order(a: SortKey, b: SortKey) -> int {
    match a {
        SortKey::Timestamp(x) => match b {
            SortKey::Timestamp(y) => if x.nanosecond < y.nanosecond {
                -1
            } else if x.nanosecond == y.nanosecond {
                0
            } else {
                1
            },
            SortKey::FileOrder { .. } => -1,
        },
        SortKey::FileOrder { file: f1, line: l1 } => match b {
            SortKey::Timestamp(_) => 1,
            SortKey::FileOrder { file: f2, line: l2 } => {
                let p = path_order(f1@, f2@);
                if p != 0 {
                    p
                } else if l1 < l2 {
                    -1
                } else if l1 == l2 {
                    0
                } else {
                    1
                }
            },
        },
    }
}

/// The key of a line.
pub open spec fn spec_sort_key(l: SourcedLine) -> SortKey {
    match spec_printable_timestamp(l.parsed) {
        Some(t) => SortKey::Timestamp(t),
        None => SortKey::FileOrder { file: l.source_file, line: l.line_number },
    }
}

/// Compares two keys.
pub fn compare_keys(a: &SortKey, b: &SortKey) -> (r: i8)
    ensures
        r == key_order(*a, *b),
        r == -key_order(*b, *a),
{
    match a {
        SortKey::Timestamp(x) => match b {
            SortKey::Timestamp(y) => if x.nanosecond < y.nanosecond {
                -1
            } else if x.nanosecond == y.nanosecond {
                0
            } else {
                1
            },
            SortKey::FileOrder { .. } => -1,
        },
        SortKey::FileOrder { file: f1, line: l1 } => match b {
            SortKey::Timestamp(_) => 1,
            SortKey::FileOrder { file: f2, line: l2 } => {
                let p = compare_paths(f1.as_str(), f2.as_str());
                if p != 0 {
                    p
                } else if *l1 < *l2 {
                    -1
                } else if *l1 == *l2 {
                    0
                } else {
                    1
                }
            },
        },
    }
}

impl SourcedLine {
    /// A line from `source_file`, at `line_number`.
    pub fn new(parsed: Printable, source_file: String, line_number: usize) -> (r: Self)
        ensures
            r == (SourcedLine { parsed, source_file, line_number }),
    {
        SourcedLine { parsed, source_file, line_number }
    }

    /// The name of the source file without its directories, or `unknown`.
    pub fn source_file_name(&self) -> (r: String)
        ensures
            r@ == match std_path_file_name(self.source_file@) {
                Some(n) => n,
                None => "unknown"@,
            },
    {
        match path_file_name(self.source_file.as_str()) {
            Some(n) => n,
            None => String::from_str("unknown"),
        }
    }

    /// The timestamp of the line, if it carries one.
    pub fn timestamp(&self) -> (r: Option<Timestamp>)
        ensures
            r == spec_printable_timestamp(self.parsed),
    {
        self.parsed.timestamp()
    }

    /// The key that orders lines from several files.
    pub fn sort_key(&self) -> (r: SortKey)
        ensures
            r == spec_sort_key(*self),
    {
        match self.timestamp() {
            Some(t) => SortKey::Timestamp(t),
            None => SortKey::FileOrder { file: self.source_file.clone(), line: self.line_number },
        }
    }

    /// Writes the rendering of the parsed line and returns the length of the
    /// buffer.
    pub fn write(&self, buffer: &mut BytesMut, metrics: &LayoutMetrics) -> (n: usize)
        requires
            buffer_bytes(*old(buffer)).len() + spec_printable_render(self.parsed, *metrics).len() <= isize::MAX,
        ensures
            buffer_bytes(*final(buffer)) == buffer_bytes(*old(buffer)) + spec_printable_render(self.parsed, *metrics),
            n == buffer_bytes(*final(buffer)).len(),
    {
        self.parsed.write(buffer, metrics)
    }

    /// The cells of the parsed line.
    pub fn cells(&self) -> (r: Vec<String>)
        ensures
            string_views(r@) == spec_printable_cells(self.parsed),
    {
        self.parsed.cells()
    }
}

/// Whether each line's key is at most the next one's.
pub open spec fn keys_in_order(s: Seq<SourcedLine>) -> bool {
    forall|i: int| 0 <= i < s.len() - 1 ==> key_order(spec_sort_key(#[trigger] s[i]), spec_sort_key(s[i + 1])) <= 0
}

/// The lines of `s` whose key is `k`, in order.
pub open spec fn with_key(s: Seq<SourcedLine>, k: SortKey) -> Seq<SourcedLine>
    decreases s.len(),
{
    if s.len() == 0 {
        Seq::empty()
    } else {
        let rest = with_key(s.drop_last(), k);
        if spec_sort_key(s.last()) == k {
            rest.push(s.last())
        } else {
            rest
        }
    }
}

proof fn lemma_with_key_concat(a: Seq<SourcedLine>, b: Seq<SourcedLine>, k: SortKey)
    ensures
        with_key(a + b, k) == with_key(a, k) + with_key(b, k),
    decreases b.len(),
{
    if b.len() == 0 {
        assert(a + b =~= a);
        assert(with_key(a, k) + with_key(b, k) =~= with_key(a, k));
    } else {
        lemma_with_key_concat(a, b.drop_last(), k);
        assert((a + b).drop_last() =~= a + b.drop_last());
        assert((a + b).last() == b.last());
        if spec_sort_key(b.last()) == k {
            assert(with_key(a, k) + with_key(b.drop_last(), k).push(b.last()) =~= (with_key(a, k) + with_key(
                b.drop_last(),
                k,
            )).push(b.last()));
        }
    }
}

proof fn lemma_with_key_none(s: Seq<SourcedLine>, k: SortKey)
    requires
        forall|j: int| 0 <= j < s.len() ==> spec_sort_key(#[trigger] s[j]) != k,
    ensures
        with_key(s, k) == Seq::<SourcedLine>::empty(),
    decreases s.len(),
{
    if s.len() > 0 {
        let init = s.drop_last();
        assert forall|j: int| 0 <= j < init.len() implies spec_sort_key(#[trigger] init[j]) != k by {
            assert(init[j] == s[j]);
        }
        assert(spec_sort_key(s[s.len() - 1]) != k);
        lemma_with_key_none(init, k);
    }
}

/// Inserting `x` after every line with its key keeps, for every key, the
/// lines with that key as `prev.push(x)` has them.
proof fn lemma_insert_keeps_keys(s0: Seq<SourcedLine>, i: int, x: SourcedLine, prev: Seq<SourcedLine>)
    requires
        0 <= i <= s0.len(),
        forall|j: int| i <= j < s0.len() ==> spec_sort_key(#[trigger] s0[j]) != spec_sort_key(x),
        forall|k: SortKey| #[trigger] with_key(s0, k) == with_key(prev, k),
    ensures
        forall|k: SortKey| #[trigger] with_key(s0.insert(i, x), k) == with_key(prev.push(x), k),
{
    let head = s0.take(i);
    let tail = s0.skip(i);
    assert(s0.insert(i, x) =~= head + seq![x] + tail);
    assert(s0 =~= head + tail);
    assert(prev.push(x).drop_last() =~= prev);
    assert(seq![x].drop_last() =~= Seq::<SourcedLine>::empty());
    assert forall|k: SortKey| #[trigger] with_key(s0.insert(i, x), k) == with_key(prev.push(x), k) by {
        lemma_with_key_concat(head + seq![x], tail, k);
        lemma_with_key_concat(head, seq![x], k);
        lemma_with_key_concat(head, tail, k);
        assert(with_key(s0, k) == with_key(prev, k));
        let one = seq![x];
        assert(one.drop_last() =~= Seq::<SourcedLine>::empty());
        assert(one.last() == x);
        assert(with_key(one.drop_last(), k) == Seq::<SourcedLine>::empty());
        if k == spec_sort_key(x) {
            assert forall|j: int| 0 <= j < tail.len() implies spec_sort_key(#[trigger] tail[j]) != k by {
                assert(tail[j] == s0[i + j]);
            }
            lemma_with_key_none(tail, k);
            assert(with_key(seq![x], k) =~= seq![x]);
            assert(with_key(head, k) + Seq::<SourcedLine>::empty() =~= with_key(head, k));
            assert(with_key(head, k) + seq![x] + Seq::<SourcedLine>::empty() =~= with_key(head, k).push(x));
        } else {
            assert(with_key(seq![x], k) =~= Seq::<SourcedLine>::empty());
            assert(with_key(head, k) + Seq::<SourcedLine>::empty() =~= with_key(head, k));
        }
    }
}

/// Where a line with key `kx` goes among lines in key order: after the
/// last line whose key is not greater, so after every line with the same
/// key; every line after that point has a greater key.
fn insertion_point(sorted: &Vec<SourcedLine>, kx: &SortKey) -> (p: usize)
    ensures
        p <= sorted@.len(),
        p > 0 ==> key_order(spec_sort_key(sorted@[p - 1]), *kx) <= 0,
        forall|j: int| p <= j < sorted@.len() ==> key_order(*kx, spec_sort_key(#[trigger] sorted@[j])) < 0
            && spec_sort_key(sorted@[j]) != *kx,
{
    let mut p: usize = sorted.len();
    while p > 0
        invariant
            p <= sorted@.len(),
            forall|j: int| p <= j < sorted@.len() ==> key_order(*kx, spec_sort_key(#[trigger] sorted@[j])) < 0
                && spec_sort_key(sorted@[j]) != *kx,
        decreases p,
    {
        let ki = sorted[p - 1].sort_key();
        if compare_keys(&ki, kx) <= 0 {
            return p;
        }
        p = p - 1;
    }
    p
}

/// Sorts lines by their keys: the same lines, each key at most the next,
/// and lines with equal keys in their input order (a stable sort).
pub fn sort_sourced_lines(lines: Vec<SourcedLine>) -> (r: Vec<SourcedLine>)
    ensures
        r@.to_multiset() == lines@.to_multiset(),
        keys_in_order(r@),
        forall|k: SortKey| #[trigger] with_key(r@, k) == with_key(lines@, k),
{
    let ghost input_seq = lines@;
    let mut rest = reversed(lines);
    proof {
        rest@.lemma_reverse_to_multiset();
        assert(rest@.reverse() =~= input_seq);
    }
    let mut sorted: Vec<SourcedLine> = Vec::new();
    let ghost mut n: int = 0;
    proof {
        lemma_empty_multiset(sorted@);
        lemma_add_empty(rest@.to_multiset());
        assert forall|k: SortKey| #[trigger] with_key(sorted@, k) == with_key(input_seq.take(0), k) by {
            assert(input_seq.take(0) =~= Seq::<SourcedLine>::empty());
        }
    }
    while rest.len() > 0
        invariant
            sorted@.to_multiset().add(rest@.to_multiset()) == input_seq.to_multiset(),
            keys_in_order(sorted@),
            0 <= n <= input_seq.len(),
            n + rest@.len() == input_seq.len(),
            forall|j: int| 0 <= j < rest@.len() ==> #[trigger] rest@[j] == input_seq[input_seq.len() - 1 - j],
            forall|k: SortKey| #[trigger] with_key(sorted@, k) == with_key(input_seq.take(n), k),
        decreases rest.len(),
    {
        let ghost before = rest@;
        let x = rest.pop().unwrap();
        proof {
            assert(x == before[before.len() - 1]);
            assert(x == input_seq[n]);
        }
        let kx = x.sort_key();
        let i = insertion_point(&sorted, &kx);
        let ghost s0 = sorted@;
        sorted.insert(i, x);
        proof {
            assert(before =~= rest@.push(x));
            lemma_move_one(s0, i as int, x, rest@);
            assert forall|j: int| 0 <= j < rest@.len() implies #[trigger] rest@[j] == input_seq[input_seq.len() - 1 - j] by {
                assert(rest@[j] == before[j]);
            }
            assert(input_seq.take(n + 1) =~= input_seq.take(n).push(x));
            lemma_insert_keeps_keys(s0, i as int, x, input_seq.take(n));
            n = n + 1;
        }
        assert forall|j: int| 0 <= j < sorted@.len() - 1 implies key_order(
            spec_sort_key(#[trigger] sorted@[j]),
            spec_sort_key(sorted@[j + 1]),
        ) <= 0 by {
            if j < i - 1 {
                assert(sorted@[j] == s0[j] && sorted@[j + 1] == s0[j + 1]);
            } else if j == i - 1 {
                assert(sorted@[j] == s0[j] && sorted@[j + 1] == x);
            } else if j == i {
                assert(sorted@[j] == x && sorted@[j + 1] == s0[j]);
            } else {
                assert(sorted@[j] == s0[j - 1] && sorted@[j + 1] == s0[j]);
            }
        }
    }
    proof {
        lemma_empty_multiset(rest@);
        lemma_add_empty(sorted@.to_multiset());
        assert(input_seq.take(input_seq.len() as int) =~= input_seq);
    }
    sorted
}

/// The elements of `v` in reverse order.
fn reversed<T>(v: Vec<T>) -> (r: Vec<T>)
    ensures
        r@ == v@.reverse(),
{
    let mut v = v;
    let ghost input_seq = v@;
    let mut r: Vec<T> = Vec::new();
    assert(v@ + r@.reverse() =~= input_seq);
    while v.len() > 0
        invariant
            v@ + r@.reverse() == input_seq,
        decreases v.len(),
    {
        let ghost before = v@;
        let ghost r0 = r@;
        let x = v.pop().unwrap();
        r.push(x);
        assert(r@.reverse() =~= seq![x] + r0.reverse());
        assert(before =~= v@.push(x));
        assert(v@ + r@.reverse() =~= input_seq);
    }
    assert(r@.reverse() =~= input_seq);
    assert(r@ =~= r@.reverse().reverse());
    r
}

proof fn lemma_empty_multiset<A>(s: Seq<A>)
    requires
        s.len() == 0,
    ensures
        s.to_multiset() =~= vstd::multiset::Multiset::empty(),
{
    vstd::seq_lib::to_multiset_len(s);
    vstd::multiset::lemma_multiset_empty_len(s.to_multiset());
}

proof fn lemma_add_empty<A>(m: vstd::multiset::Multiset<A>)
    ensures
        vstd::multiset::Multiset::empty().add(m) =~= m,
        m.add(vstd::multiset::Multiset::empty()) =~= m,
{
    broadcast use vstd::multiset::group_multiset_axioms;
}

/// Moving `x` from the end of `rest` into `s0` at `i` keeps the multiset
/// of all the elements.
proof fn lemma_move_one<A>(s0: Seq<A>, i: int, x: A, rest: Seq<A>)
    requires
        0 <= i <= s0.len(),
    ensures
        s0.insert(i, x).to_multiset().add(rest.to_multiset()) =~= s0.to_multiset().add(rest.push(x).to_multiset()),
{
    vstd::seq_lib::to_multiset_build(rest, x);
    vstd::seq_lib::to_multiset_insert(s0, i, x);
    broadcast use vstd::multiset::group_multiset_axioms;
}

} // verus!

verus! {

/// In lines sorted by key, the lines with a timestamp come first, in time
/// order: a line with a timestamp is only preceded by lines with a
/// timestamp no later than its own.
pub proof fn law_sorted_lines_chronological(s: Seq<SourcedLine>, i: int, j: int)
    requires
        keys_in_order(s),
        0 <= i < j < s.len(),
        spec_printable_timestamp(s[j].parsed) is Some,
    ensures
        spec_printable_timestamp(s[i].parsed) is Some,
        spec_printable_timestamp(s[i].parsed)->0.nanosecond <= spec_printable_timestamp(s[j].parsed)->0.nanosecond,
    decreases j - i,
{
    let k = j - 1;
    assert(key_order(spec_sort_key(s[k]), spec_sort_key(s[k + 1])) <= 0);
    if k > i {
        law_sorted_lines_chronological(s, i, k);
    }
}

} // verus!
