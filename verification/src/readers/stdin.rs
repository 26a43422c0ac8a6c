//! Stdin with offsets: what to do for each offset, the circular buffer that
//! keeps the last bytes of the input, and the ring that keeps its last
//! lines.

use vstd::arithmetic::div_mod::{lemma_add_mod_noop, lemma_mod_add_multiples_vanish, lemma_small_mod};
use std::collections::VecDeque;

use vstd::prelude::*;

use crate::config::{ConfigOpts, OffsetUnit};
use crate::defaults::processing::BLOCK_SIZE;
use crate::defaults::memory::MEMORY_LIMIT_BYTES;
use crate::text::{last_index_of, spec_last_index_of, spec_utf8_lossy, utf8_len, utf8_lossy};

verus! {

/// What to do with stdin for the configured offset.
#[derive(PartialEq, Eq, Structural, Clone, Copy, Debug)]
pub enum StdinAction {
    /// Print everything, following if configured.
    Tail,
    /// Skip this many lines first.
    SkipLines(u64),
    /// Skip this many bytes first.
    SkipBytes(u64),
    /// Print only this many last lines.
    BacktrackLines(u64),
    /// Print only this many last bytes.
    BacktrackBytes(u64),
}

/// The stdin action for an offset: zero prints everything; a positive
/// offset skips that many units; a negative one keeps that many last units.
/// Blocks count 512 bytes.
pub open spec fn spec_stdin_action(offset: i64, unit: OffsetUnit) -> StdinAction {
    if offset == 0 {
        StdinAction::Tail
    } else if offset > 0 {
        match unit {
            OffsetUnit::Lines => StdinAction::SkipLines(offset as u64),
            OffsetUnit::Bytes => StdinAction::SkipBytes(offset as u64),
            OffsetUnit::Blocks => StdinAction::SkipBytes((offset * 512) as u64),
        }
    } else {
        match unit {
            OffsetUnit::Lines => StdinAction::BacktrackLines((-offset) as u64),
            OffsetUnit::Bytes => StdinAction::BacktrackBytes((-offset) as u64),
            OffsetUnit::Blocks => StdinAction::BacktrackBytes((-offset * 512) as u64),
        }
    }
}

/// Entry point for stdin: decides what to do for the configured offset.
pub fn handle_stdin(cfg: &ConfigOpts) -> (a: StdinAction)
    requires
        cfg.offset != i64::MIN,
        cfg.offset_unit == OffsetUnit::Blocks ==> (if cfg.offset < 0 { -cfg.offset } else { cfg.offset as int })
            * 512 <= u64::MAX,
    ensures
        a == spec_stdin_action(cfg.offset, cfg.offset_unit),
{
    let offset = cfg.offset;
    if offset == 0 {
        return StdinAction::Tail;
    }
    if offset > 0 {
        match cfg.offset_unit {
            OffsetUnit::Lines => StdinAction::SkipLines(offset as u64),
            OffsetUnit::Bytes => StdinAction::SkipBytes(offset as u64),
            OffsetUnit::Blocks => StdinAction::SkipBytes((offset as u64) * BLOCK_SIZE),
        }
    } else {
        let back = (-offset) as u64;
        match cfg.offset_unit {
            OffsetUnit::Lines => StdinAction::BacktrackLines(back),
            OffsetUnit::Bytes => StdinAction::BacktrackBytes(back),
            OffsetUnit::Blocks => StdinAction::BacktrackBytes(back * BLOCK_SIZE),
        }
    }
}

/// The last `n` elements of `s` (all of them when there are fewer).
pub open spec fn last_n<T>(s: Seq<T>, n: nat) -> Seq<T> {
    if s.len() <= n { s } else { s.skip(s.len() - n) }
}

proof fn lemma_mod_distinct(j: int, t: int, m: int)
    requires
        m > 0,
        0 <= j < t < j + m,
    ensures
        j % m != t % m,
{
    vstd::arithmetic::div_mod::lemma_fundamental_div_mod(j, m);
    vstd::arithmetic::div_mod::lemma_fundamental_div_mod(t, m);
    let qj = j / m;
    let qt = t / m;
    let r = j % m;
    if t % m == r {
        assert(false) by (nonlinear_arith)
            requires
                j == m * qj + r,
                t == m * qt + r,
                0 < t - j < m,
                m > 0,
        ;
    }
}

/// Circular buffer that keeps the last `capacity` bytes written to it.
pub struct CircularByteBuffer {
    buffer: Vec<u8>,
    pos: usize,
    total_read: u64,
    capacity: usize,
    written: Ghost<Seq<u8>>,
}

impl CircularByteBuffer {
    /// Every byte written so far.
    pub closed spec fn spec_written(&self) -> Seq<u8> {
        self.written@
    }

    pub closed spec fn spec_capacity(&self) -> nat {
        self.capacity as nat
    }

    /// The buffer holds the last `capacity` bytes written, each at its
    /// position modulo the capacity.
    pub closed spec fn wf(&self) -> bool {
        &&& self.buffer.len() == self.capacity
        &&& self.pos as int == self.total_read as int
        &&& self.total_read as int == self.written@.len()
        &&& (self.capacity == 0 ==> self.total_read == 0)
        &&& forall|j: int|
            #![trigger self.written@[j]]
            self.written@.len() - self.capacity <= j < self.written@.len() && 0 <= j ==> self.buffer@[j
                % (self.capacity as int)] == self.written@[j]
    }

    /// Create a new circular buffer with the specified capacity.
    pub fn new(capacity: usize) -> (b: Self)
        ensures
            b.wf(),
            b.spec_written() == Seq::<u8>::empty(),
            b.spec_capacity() == capacity,
    {
        let mut buffer: Vec<u8> = Vec::new();
        let mut i: usize = 0;
        while i < capacity
            invariant
                i <= capacity,
                buffer.len() == i,
            decreases capacity - i,
        {
            buffer.push(0u8);
            i = i + 1;
        }
        CircularByteBuffer { buffer, pos: 0, total_read: 0, capacity, written: Ghost(Seq::empty()) }
    }

    /// Write data to the circular buffer.
    pub fn write(&mut self, data: &[u8])
        requires
            old(self).wf(),
            old(self).spec_capacity() > 0 || data@.len() == 0,
            old(self).spec_written().len() + data@.len() <= usize::MAX,
            old(self).spec_written().len() + data@.len() <= u64::MAX,
        ensures
            final(self).wf(),
            final(self).spec_capacity() == old(self).spec_capacity(),
            final(self).spec_written() == old(self).spec_written() + data@,
    {
        let ghost start = self.written@;
        let mut i: usize = 0;
        while i < data.len()
            invariant
                i <= data.len(),
                self.wf(),
                self.capacity > 0 || data@.len() == 0,
                self.capacity == old(self).capacity,
                start == old(self).written@,
                start.len() + data@.len() <= usize::MAX,
                start.len() + data@.len() <= u64::MAX,
                self.written@ == start + data@.take(i as int),
            decreases data.len() - i,
        {
            let cap = self.capacity;
            let idx = self.pos % cap;
            let byte = data[i];
            let ghost old_written = self.written@;
            let ghost t = self.total_read as int;
            self.buffer.set(idx, byte);
            self.pos = self.pos + 1;
            self.total_read = self.total_read + 1;
            self.written = Ghost(old_written.push(byte));
            proof {
                assert(data@.take(i + 1) =~= data@.take(i as int).push(byte));
                assert forall|j: int|
                    #![trigger self.written@[j]]
                    self.written@.len() - cap <= j < self.written@.len() && 0 <= j implies self.buffer@[j
                        % (cap as int)] == self.written@[j] by {
                    if j < t {
                        lemma_mod_distinct(j, t, cap as int);
                        assert(old_written[j] == self.written@[j]);
                    }
                }
            }
            i = i + 1;
        }
        proof {
            assert(data@.take(data@.len() as int) =~= data@);
        }
    }

    /// The last bytes written, as many as the capacity holds.
    pub fn extract_last_bytes(&self) -> (r: Vec<u8>)
        requires
            self.wf(),
        ensures
            r@ == last_n(self.spec_written(), self.spec_capacity()),
    {
        let mut result: Vec<u8> = Vec::new();
        if self.total_read == 0 {
            assert(self.written@ =~= Seq::<u8>::empty());
            return result;
        }
        let cap = self.capacity;
        if self.total_read >= cap as u64 {
            let start_pos = self.pos % cap;
            let ghost w = self.written@;
            let ghost base = w.len() - cap;
            let mut i: usize = 0;
            while i < cap
                invariant
                    self.wf(),
                    cap == self.capacity,
                    cap > 0,
                    w == self.written@,
                    base == w.len() - cap,
                    base >= 0,
                    start_pos == self.pos % cap,
                    i <= cap,
                    result@ == w.subrange(base, base + i),
                decreases cap - i,
            {
                let idx = if i >= cap - start_pos { i - (cap - start_pos) } else { start_pos + i };
                proof {
                    assert(start_pos < cap) by {
                        vstd::arithmetic::div_mod::lemma_mod_bound(self.pos as int, cap as int);
                    }
                    if i >= cap - start_pos {
                        lemma_small_mod((start_pos + i - cap) as nat, cap as nat);
                        lemma_mod_add_multiples_vanish((start_pos + i - cap) as int, cap as int);
                    } else {
                        lemma_small_mod((start_pos + i) as nat, cap as nat);
                    }
                    assert(idx as int == ((start_pos as int) + (i as int)) % (cap as int));
                    let j = base + i;
                    lemma_add_mod_noop(self.pos as int, i as int, cap as int);
                    lemma_small_mod(i as nat, cap as nat);
                    assert(((self.pos as int % cap as int) + (i as int % cap as int)) % (cap as int) == (self.pos as int + i as int) % (cap as int));
                    lemma_mod_add_multiples_vanish(j, cap as int);
                    assert(self.pos as int + i == cap + j);
                    assert(idx as int == j % (cap as int));
                    assert(self.buffer@[j % (cap as int)] == w[j]);
                }
                result.push(self.buffer[idx]);
                i = i + 1;
            }
            proof {
                assert(w.subrange(base, base + cap) =~= w.skip(base));
            }
            result
        } else {
            let n = self.total_read as usize;
            let mut i: usize = 0;
            while i < n
                invariant
                    self.wf(),
                    n == self.written@.len(),
                    n < self.capacity,
                    i <= n,
                    result@ == self.written@.take(i as int),
                decreases n - i,
            {
                proof {
                    lemma_small_mod(i as nat, self.capacity as nat);
                    assert(self.buffer@[i as int % (self.capacity as int)] == self.written@[i as int]);
                }
                result.push(self.buffer[i]);
                i = i + 1;
            }
            assert(self.written@.take(n as int) =~= self.written@);
            result
        }
    }

    /// Check if the buffer is empty.
    pub fn is_empty(&self) -> (r: bool)
        requires
            self.wf(),
        ensures
            r == (self.spec_written().len() == 0),
    {
        self.total_read == 0
    }

    /// Get the total number of bytes that have been written.
    pub fn total_written(&self) -> (n: u64)
        requires
            self.wf(),
        ensures
            n == self.spec_written().len(),
    {
        self.total_read
    }
}

/// Whatever is written, the buffer gives back exactly the last bytes, as
/// many as its capacity.
pub proof fn law_circular_buffer_keeps_last(written: Seq<u8>, capacity: nat)
    ensures
        last_n(written, capacity).len() == if written.len() <= capacity { written.len() } else { capacity },
        last_n(written, capacity) =~= written.subrange(written.len() - last_n(written, capacity).len(), written.len() as int),
{
}

/// Finds the position of the last byte `c` in `buffer`.
pub fn find_last_char(buffer: &[u8], c: u8) -> (r: Option<usize>)
    ensures
        match r {
            Some(i) => spec_last_index_of(buffer@, c) == i as int,
            None => spec_last_index_of(buffer@, c) == -1,
        },
{
    last_index_of(buffer, c)
}


/// The views of a list of strings.
pub open spec fn string_views(v: Seq<String>) -> Seq<Seq<char>> {
    v.map_values(|s: String| s@)
}

/// How many lines a ring of size `n` keeps: `n`, and at least the last
/// line.
pub open spec fn keep_count(n: nat) -> nat {
    if n == 0 { 1 } else { n }
}

/// Keeps the last lines pushed into it: a line pushed when the ring holds
/// `n` lines or more drops the oldest.
pub struct LastLines {
    keep: usize,
    lines: VecDeque<String>,
    pushed: Ghost<Seq<Seq<char>>>,
}

impl LastLines {
    /// Every line pushed so far.
    pub closed spec fn spec_pushed(&self) -> Seq<Seq<char>> {
        self.pushed@
    }

    /// The lines held now.
    pub closed spec fn spec_lines(&self) -> Seq<Seq<char>> {
        string_views(self.lines@)
    }

    pub closed spec fn spec_keep(&self) -> nat {
        self.keep as nat
    }

    /// The ring holds the last lines pushed.
    pub closed spec fn wf(&self) -> bool {
        string_views(self.lines@) == last_n(self.pushed@, keep_count(self.keep as nat))
    }

    /// A ring for the last `n` lines.
    pub fn new(n: usize) -> (r: Self)
        ensures
            r.wf(),
            r.spec_keep() == n,
            r.spec_pushed() == Seq::<Seq<char>>::empty(),
            r.spec_lines() == Seq::<Seq<char>>::empty(),
    {
        let r = LastLines { keep: n, lines: VecDeque::new(), pushed: Ghost(Seq::empty()) };
        assert(string_views(r.lines@) =~= Seq::<Seq<char>>::empty());
        r
    }

    /// The number of lines held.
    pub fn len(&self) -> (n: usize)
        ensures
            n == self.spec_lines().len(),
    {
        self.lines.len()
    }

    /// Pushes a line, dropping the oldest one when the ring is full.
    /// Returns the dropped line.
    pub fn push(&mut self, line: String) -> (dropped: Option<String>)
        requires
            old(self).wf(),
        ensures
            final(self).wf(),
            final(self).spec_keep() == old(self).spec_keep(),
            final(self).spec_pushed() == old(self).spec_pushed().push(line@),
            match dropped {
                Some(d) => old(self).spec_lines().len() > 0 && d@ == old(self).spec_lines()[0]
                    && final(self).spec_lines() == old(self).spec_lines().skip(1).push(line@),
                None => final(self).spec_lines() == old(self).spec_lines().push(line@),
            },
    {
        let ghost p = self.pushed@;
        let ghost k = keep_count(self.keep as nat);
        let mut dropped: Option<String> = None;
        if self.lines.len() >= self.keep {
            dropped = self.lines.pop_front();
        }
        let ghost mid = self.lines@;
        self.lines.push_back(line);
        self.pushed = Ghost(p.push(line@));
        proof {
            let np = p.push(line@);
            assert(string_views(self.lines@) =~= string_views(mid).push(line@));
            if dropped is Some {
                assert(string_views(mid) =~= string_views(old(self).lines@).skip(1));
                assert(last_n(np, k) =~= last_n(p, k).skip(1).push(line@));
            } else {
                assert(mid == old(self).lines@);
                assert(last_n(np, k) =~= last_n(p, k).push(line@));
            }
        }
        dropped
    }

    /// The lines held, oldest first.
    pub fn into_vec(self) -> (v: Vec<String>)
        requires
            self.wf(),
        ensures
            string_views(v@) == last_n(self.spec_pushed(), keep_count(self.spec_keep())),
    {
        let mut lines = self.lines;
        let ghost all = lines@;
        let mut out: Vec<String> = Vec::new();
        while lines.len() > 0
            invariant
                all == out@ + lines@,
            decreases lines@.len(),
        {
            let ghost before = lines@;
            match lines.pop_front() {
                Some(l) => {
                    out.push(l);
                    assert(all =~= out@ + lines@);
                },
                None => {},
            }
        }
        assert(out@ =~= all);
        out
    }
}

/// The total UTF-8 length of some lines.
pub open spec fn total_len(lines: Seq<Seq<char>>) -> nat
    decreases lines.len(),
{
    if lines.len() == 0 { 0 } else { utf8_len(lines[0]) + total_len(lines.skip(1)) }
}

proof fn lemma_total_len_push(lines: Seq<Seq<char>>, x: Seq<char>)
    ensures
        total_len(lines.push(x)) == total_len(lines) + utf8_len(x),
    decreases lines.len(),
{
    if lines.len() > 0 {
        assert(lines.push(x).skip(1) =~= lines.skip(1).push(x));
        assert(lines.push(x)[0] == lines[0]);
        lemma_total_len_push(lines.skip(1), x);
    } else {
        assert(lines.push(x).skip(1) =~= Seq::<Seq<char>>::empty());
        assert(lines.push(x)[0] == x);
        assert(total_len(Seq::<Seq<char>>::empty()) == 0);
    }
}

/// What to do with a line read while keeping the last lines of stdin.
pub enum BacktrackStep {
    /// The line is kept in memory.
    Kept,
    /// Memory is over its limit: write these lines, then this one, to a
    /// temporary file, and keep writing there.
    SpillAndWrite(Vec<String>),
    /// Write this line to the temporary file.
    WriteToTemp,
}

/// Keeps the last lines of stdin in memory until they take more than
/// `MEMORY_LIMIT_BYTES`; from then on every line goes to a temporary file.
pub struct BacktrackLines {
    ring: LastLines,
    memory_used: usize,
    spilled: bool,
}

impl BacktrackLines {
    pub closed spec fn wf(&self) -> bool {
        &&& self.ring.wf()
        &&& self.memory_used == total_len(self.ring.spec_lines())
        &&& self.spilled ==> self.ring.spec_lines().len() == 0
    }

    /// The lines kept in memory.
    pub closed spec fn spec_kept(&self) -> Seq<Seq<char>> {
        self.ring.spec_lines()
    }

    /// Every line pushed into memory since the start or the spill.
    pub closed spec fn spec_pushed(&self) -> Seq<Seq<char>> {
        self.ring.spec_pushed()
    }

    pub closed spec fn spec_spilled(&self) -> bool {
        self.spilled
    }

    pub closed spec fn spec_memory_used(&self) -> nat {
        self.memory_used as nat
    }

    pub closed spec fn spec_keep(&self) -> nat {
        self.ring.spec_keep()
    }

    /// Keeping the last `lines_to_show` lines.
    pub fn new(lines_to_show: usize) -> (b: Self)
        ensures
            b.wf(),
            !b.spec_spilled(),
            b.spec_kept() == Seq::<Seq<char>>::empty(),
            b.spec_pushed() == Seq::<Seq<char>>::empty(),
            b.spec_memory_used() == 0,
            b.spec_keep() == lines_to_show,
    {
        BacktrackLines { ring: LastLines::new(lines_to_show), memory_used: 0, spilled: false }
    }

    /// The memory taken by the lines kept.
    pub fn memory_used(&self) -> (n: usize)
        ensures
            n == self.spec_memory_used(),
    {
        self.memory_used
    }

    /// Whether lines now go to the temporary file.
    pub fn spilled(&self) -> (r: bool)
        ensures
            r == self.spec_spilled(),
    {
        self.spilled
    }

    /// Takes the next line of stdin.
    pub fn push_line(&mut self, line: String) -> (step: BacktrackStep)
        requires
            old(self).wf(),
            old(self).spec_memory_used() + utf8_len(line@) <= usize::MAX,
        ensures
            final(self).wf(),
            final(self).spec_keep() == old(self).spec_keep(),
            old(self).spec_spilled() ==> step is WriteToTemp && final(self).spec_spilled(),
            !old(self).spec_spilled() && old(self).spec_memory_used() > MEMORY_LIMIT_BYTES ==> (step matches BacktrackStep::SpillAndWrite(v)
                && string_views(v@) == old(self).spec_kept() && final(self).spec_spilled()),
            !old(self).spec_spilled() && old(self).spec_memory_used() <= MEMORY_LIMIT_BYTES ==> step is Kept
                && !final(self).spec_spilled() && final(self).spec_pushed() == old(self).spec_pushed().push(line@),
    {
        if self.memory_used > MEMORY_LIMIT_BYTES && !self.spilled {
            let keep = self.ring.spec_keep_exec();
            let mut ring = LastLines::new(keep);
            std::mem::swap(&mut ring, &mut self.ring);
            let kept = ring.into_vec();
            self.memory_used = 0;
            self.spilled = true;
            assert(total_len(self.ring.spec_lines()) == 0);
            return BacktrackStep::SpillAndWrite(kept);
        }
        if self.spilled {
            return BacktrackStep::WriteToTemp;
        }
        let len = line.as_str().len();
        let ghost before = self.ring.spec_lines();
        let dropped = self.ring.push(line);
        match dropped {
            Some(d) => {
                proof {
                    assert(before =~= seq![before[0]] + before.skip(1));
                    assert(total_len(before) == utf8_len(before[0]) + total_len(before.skip(1)));
                    lemma_total_len_push(before.skip(1), line@);
                }
                self.memory_used = self.memory_used - d.as_str().len();
            },
            None => {
                proof {
                    lemma_total_len_push(before, line@);
                }
            },
        }
        self.memory_used = self.memory_used + len;
        BacktrackStep::Kept
    }

    /// The lines kept in memory, oldest first.
    pub fn into_lines(self) -> (v: Vec<String>)
        requires
            self.wf(),
        ensures
            string_views(v@) == self.spec_kept(),
    {
        self.ring.into_vec()
    }
}

impl LastLines {
    /// The number of lines this ring keeps at most.
    pub fn spec_keep_exec(&self) -> (n: usize)
        ensures
            n == self.spec_keep(),
    {
        self.keep
    }
}

/// While nothing is spilled, the lines kept are the last lines of stdin:
/// as many as asked for, and at least the last one.
pub proof fn law_backtrack_keeps_last_lines(b: BacktrackLines)
    requires
        b.wf(),
        !b.spec_spilled(),
    ensures
        b.spec_kept() == last_n(b.spec_pushed(), keep_count(b.spec_keep())),
{
}

/// The bytes of a backtrack to print as lines, and the partial last line:
/// everything before the last newline, and everything after it.
pub open spec fn spec_split_at_last_newline(bytes: Seq<u8>) -> (Seq<u8>, Seq<u8>) {
    let i = spec_last_index_of(bytes, 10u8);
    if i >= 0 { (bytes.take(i), bytes.skip(i + 1)) } else { (bytes, Seq::empty()) }
}

/// Splits the last bytes of stdin at their last newline.
pub fn split_at_last_newline(bytes: &[u8]) -> (r: (Vec<u8>, Vec<u8>))
    ensures
        r.0@ == spec_split_at_last_newline(bytes@).0,
        r.1@ == spec_split_at_last_newline(bytes@).1,
{
    let mut head: Vec<u8> = Vec::new();
    let mut tail: Vec<u8> = Vec::new();
    match last_index_of(bytes, 10u8) {
        Some(last) => {
            let mut i: usize = 0;
            while i < last
                invariant
                    last < bytes.len(),
                    i <= last,
                    head@ == bytes@.take(i as int),
                decreases last - i,
            {
                head.push(bytes[i]);
                assert(bytes@.take(i + 1) =~= bytes@.take(i as int).push(bytes@[i as int]));
                i = i + 1;
            }
            let mut j: usize = last + 1;
            while j < bytes.len()
                invariant
                    last < j <= bytes.len(),
                    tail@ == bytes@.subrange(last + 1, j as int),
                decreases bytes.len() - j,
            {
                tail.push(bytes[j]);
                j = j + 1;
            }
            assert(tail@ =~= bytes@.skip(last + 1));
            proof {
                crate::text::lemma_last_index_bound(bytes@, 10u8);
            }
        },
        None => {
            let mut i: usize = 0;
            while i < bytes.len()
                invariant
                    i <= bytes.len(),
                    head@ == bytes@.take(i as int),
                decreases bytes.len() - i,
            {
                head.push(bytes[i]);
                assert(bytes@.take(i + 1) =~= bytes@.take(i as int).push(bytes@[i as int]));
                i = i + 1;
            }
            assert(head@ =~= bytes@);
            assert(tail@ =~= Seq::<u8>::empty());
        },
    }
    (head, tail)
}

/// The lines of `b` split at every newline, each decoded as
/// `String::from_utf8_lossy` decodes it; a piece after the last newline is
/// a line too.
pub open spec fn spec_lossy_lines(b: Seq<u8>) -> Seq<Seq<char>>
    decreases b.len(),
{
    let i = spec_last_index_of(b, 10u8);
    if i < 0 {
        seq![spec_utf8_lossy(b)]
    } else {
        proof {
            crate::text::lemma_last_index_bound(b, 10u8);
        }
        spec_lossy_lines(b.take(i)).push(spec_utf8_lossy(b.skip(i + 1)))
    }
}

/// The bytes read past an offset: the complete lines among them (all up to
/// the last newline, each decoded lossily), and the partial line after the
/// last newline. Without a newline every byte belongs to the partial line.
pub open spec fn spec_overshoot(b: Seq<u8>) -> (Seq<Seq<char>>, Seq<u8>) {
    let i = spec_last_index_of(b, 10u8);
    if i < 0 {
        (Seq::empty(), b)
    } else {
        (spec_lossy_lines(b.take(i)), b.skip(i + 1))
    }
}

/// Splits the bytes read past an offset into their complete lines and the
/// partial line that follows them.
pub fn split_overshoot(bytes: &[u8]) -> (r: (Vec<String>, Vec<u8>))
    ensures
        string_views(r.0@) == spec_overshoot(bytes@).0,
        r.1@ == spec_overshoot(bytes@).1,
{
    let (head, rest) = split_at_last_newline(bytes);
    let mut lines: Vec<String> = Vec::new();
    match last_index_of(bytes, 10u8) {
        None => {
            return (lines, head);
        },
        Some(_) => {},
    }
    let ghost h0 = head@;
    let mut cur = head;
    assert(string_views(lines@) =~= Seq::<Seq<char>>::empty());
    assert(spec_lossy_lines(h0) =~= spec_lossy_lines(cur@) + string_views(lines@));
    loop
        invariant_except_break
            spec_lossy_lines(h0) == spec_lossy_lines(cur@) + string_views(lines@),
        ensures
            string_views(lines@) == spec_lossy_lines(h0),
        decreases cur.len(),
    {
        match last_index_of(cur.as_slice(), 10u8) {
            None => {
                let s = utf8_lossy(cur.as_slice());
                let ghost old_lines = lines@;
                lines.insert(0, s);
                proof {
                    assert(string_views(lines@) =~= seq![s@] + string_views(old_lines));
                    assert(spec_lossy_lines(cur@) == seq![spec_utf8_lossy(cur@)]);
                }
                break;
            },
            Some(_) => {
                let (h, t) = split_at_last_newline(cur.as_slice());
                let s = utf8_lossy(t.as_slice());
                let ghost old_lines = lines@;
                let ghost c0 = cur@;
                lines.insert(0, s);
                proof {
                    crate::text::lemma_last_index_bound(c0, 10u8);
                    assert(string_views(lines@) =~= seq![s@] + string_views(old_lines));
                    assert(spec_lossy_lines(c0) == spec_lossy_lines(h@).push(s@));
                    assert(spec_lossy_lines(h@).push(s@) + string_views(old_lines) =~= spec_lossy_lines(h@)
                        + string_views(lines@));
                }
                cur = h;
            },
        }
    }
    proof {
        assert(rest@ == spec_overshoot(bytes@).1);
    }
    (lines, rest)
}

} // verus!
