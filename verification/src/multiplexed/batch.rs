//! Batching of lines from several followed files: each line is rendered
//! once on arrival, held for a short window, and the lines of a window are
//! handed out sorted by their timestamps, lines without one after them in
//! order of arrival.

use vstd::prelude::*;

use crate::logpatterns::formatting::{LayoutMetrics, Timestamp};
use crate::logpatterns::{spec_printable_render, spec_printable_timestamp, Printable};

verus! {

/// A rendered line waiting in a batch.
#[derive(Debug)]
pub struct BatchedLine {
    /// The rendered line, with the blank line that separates entries.
    pub rendered: Vec<u8>,
    /// The timestamp of the line, when it carries one: the primary key.
    pub timestamp: Option<Timestamp>,
    /// When the line arrived (a monotonic clock reading): the key of lines
    /// without a timestamp.
    pub received_at: u64,
}

/// The sort key of a batched line, as two integers compared in order:
/// timestamped lines first, by timestamp; the others by arrival.
pub open spec fn batch_key(l: BatchedLine) -> (int, int) {
    match l.timestamp {
        Some(t) => (0, t.nanosecond as int),
        None => (1, l.received_at as int),
    }
}

/// Whether the key `a` comes no later than `b`.
pub open spec fn key_le(a: (int, int), b: (int, int)) -> bool {
    a.0 < b.0 || (a.0 == b.0 && a.1 <= b.1)
}

/// What a line is rendered as: the parsed line, or the text itself when it
/// did not parse, then a newline.
pub open spec fn spec_batched_render(parsed: Option<Printable>, text: Seq<char>, metrics: LayoutMetrics) -> Seq<u8> {
    let body = match parsed {
        Some(p) => spec_printable_render(p, metrics),
        None => vstd::utf8::encode_utf8(text),
    };
    body + seq![10u8]
}

impl BatchedLine {
    /// A line that arrived at `received_at`: rendered once from what it
    /// parsed as (or from its text when it did not parse), with the
    /// timestamp of the parsed line.
    pub fn new(parsed: Option<Printable>, text: String, metrics: &LayoutMetrics, received_at: u64) -> (r: Self)
        ensures
            r.rendered@ == spec_batched_render(parsed, text@, *metrics),
            r.timestamp == match parsed {
                Some(p) => spec_printable_timestamp(p),
                None => None,
            },
            r.received_at == received_at,
    {
        let mut rendered: Vec<u8> = Vec::new();
        let timestamp = match &parsed {
            Some(p) => {
                p.render(&mut rendered, metrics);
                p.timestamp()
            },
            None => {
                crate::text::push_str(&mut rendered, text.as_str());
                None
            },
        };
        rendered.push(10u8);
        BatchedLine { rendered, timestamp, received_at }
    }

    /// The sort key, as two integers.
    pub fn sort_key(&self) -> (r: (u8, i128))
        ensures
            (r.0 as int, r.1 as int) == batch_key(*self),
    {
        match self.timestamp {
            Some(t) => (0, t.nanosecond),
            None => (1, self.received_at as i128),
        }
    }
}

/// Whether the keys of the lines never decrease.
pub open spec fn batch_sorted(s: Seq<BatchedLine>) -> bool {
    forall|i: int, j: int| 0 <= i < j < s.len() ==> key_le(batch_key(#[trigger] s[i]), batch_key(#[trigger] s[j]))
}

fn key_le_exec(a: (u8, i128), b: (u8, i128)) -> (r: bool)
    ensures
        r == key_le((a.0 as int, a.1 as int), (b.0 as int, b.1 as int)),
{
    a.0 < b.0 || (a.0 == b.0 && a.1 <= b.1)
}

/// Sorts a batch by key.
pub fn sort_batch(lines: Vec<BatchedLine>) -> (r: Vec<BatchedLine>)
    ensures
        r@.to_multiset() == lines@.to_multiset(),
        batch_sorted(r@),
{
    let mut lines = lines;
    let ghost input_seq = lines@;
    let mut sorted: Vec<BatchedLine> = Vec::new();
    proof {
        lemma_empty_multiset(sorted@);
        lemma_add_empty(lines@.to_multiset());
    }
    // Take the lines from the back and insert each before the first line
    // with a key not smaller, which keeps equal keys in order.
    while lines.len() > 0
        invariant
            sorted@.to_multiset().add(lines@.to_multiset()) == input_seq.to_multiset(),
            batch_sorted(sorted@),
        decreases lines.len(),
    {
        let ghost before = lines@;
        let x = lines.pop().unwrap();
        let kx = x.sort_key();
        let mut i: usize = 0;
        while i < sorted.len() && !key_le_exec(kx, sorted[i].sort_key())
            invariant
                i <= sorted@.len(),
                (kx.0 as int, kx.1 as int) == batch_key(x),
                forall|j: int| 0 <= j < i ==> !key_le(batch_key(x), batch_key(#[trigger] sorted@[j])),
            decreases sorted.len() - i,
        {
            i = i + 1;
        }
        let ghost s0 = sorted@;
        sorted.insert(i, x);
        proof {
            assert(before =~= lines@.push(x));
            lemma_move_one(s0, i as int, x, lines@);
        }
        assert forall|a: int, b: int| 0 <= a < b < sorted@.len() implies key_le(
            batch_key(#[trigger] sorted@[a]),
            batch_key(#[trigger] sorted@[b]),
        ) by {
            let ia: int = if a < i { a } else if a == i { -1 } else { a - 1 };
            let ib: int = if b < i { b } else if b == i { -1 } else { b - 1 };
            if a == i {
                assert(sorted@[a] == x);
                assert(sorted@[b] == s0[ib]);
                assert(key_le(batch_key(x), batch_key(s0[i as int])));
                if ib > i {
                    assert(key_le(batch_key(s0[i as int]), batch_key(s0[ib])));
                }
            } else if b == i {
                assert(sorted@[b] == x);
                assert(sorted@[a] == s0[ia]);
                assert(!key_le(batch_key(x), batch_key(s0[ia])));
            } else {
                assert(sorted@[a] == s0[ia] && sorted@[b] == s0[ib]);
            }
        }
    }
    proof {
        lemma_empty_multiset(lines@);
        lemma_add_empty(sorted@.to_multiset());
    }
    sorted
}

/// How batches are cut: by time, and by size.
#[derive(Debug, Clone, Copy, PartialEq, Eq, Structural)]
pub struct BatchConfig {
    /// How long to wait before handing out a partial batch, in ms.
    pub batch_window_ms: u64,
    /// How many lines to hold at most before handing out a batch.
    pub max_batch_size: usize,
}

impl Default for BatchConfig {
    fn default() -> (r: Self)
        ensures
            r == (BatchConfig { batch_window_ms: 250, max_batch_size: 200 }),
    {
        BatchConfig { batch_window_ms: 250, max_batch_size: 200 }
    }
}

/// The lines waiting for the next batch, and when the first of them came.
pub struct BatchProcessor {
    config: BatchConfig,
    pending: Vec<BatchedLine>,
    window_start: Option<u64>,
}

impl BatchProcessor {
    /// The configuration.
    pub closed spec fn batch_config(&self) -> BatchConfig {
        self.config
    }

    /// The configuration.
    pub fn config(&self) -> (r: BatchConfig)
        ensures
            r == self.batch_config(),
    {
        self.config
    }

    /// The lines waiting.
    pub closed spec fn pending(&self) -> Seq<BatchedLine> {
        self.pending@
    }

    /// When the first waiting line came.
    pub closed spec fn window_start(&self) -> Option<u64> {
        self.window_start
    }

    /// A processor with nothing waiting.
    pub fn new(config: BatchConfig) -> (r: Self)
        ensures
            r.batch_config() == config,
            r.pending() == Seq::<BatchedLine>::empty(),
            r.window_start() is None,
    {
        BatchProcessor { config, pending: Vec::new(), window_start: None }
    }

    /// The number of lines waiting.
    pub fn pending_len(&self) -> (n: usize)
        ensures
            n == self.pending().len(),
    {
        self.pending.len()
    }

    /// Hands out the waiting lines, sorted, and starts a new window.
    fn emit_batch(&mut self) -> (batch: Vec<BatchedLine>)
        ensures
            batch@.to_multiset() == old(self).pending().to_multiset(),
            batch_sorted(batch@),
            final(self).pending() == Seq::<BatchedLine>::empty(),
            final(self).window_start() is None,
            final(self).batch_config() == old(self).batch_config(),
    {
        let mut taken: Vec<BatchedLine> = Vec::new();
        std::mem::swap(&mut taken, &mut self.pending);
        self.window_start = None;
        sort_batch(taken)
    }

    /// A line arrived at `now`. It waits; when that makes the batch full,
    /// the batch is handed out.
    pub fn on_line(&mut self, line: BatchedLine, now: u64) -> (r: Option<Vec<BatchedLine>>)
        ensures
            final(self).batch_config() == old(self).batch_config(),
            old(self).pending().len() + 1 >= old(self).batch_config().max_batch_size ==> {
                &&& r matches Some(batch)
                &&& batch@.to_multiset() == old(self).pending().push(line).to_multiset()
                &&& batch_sorted(batch@)
                &&& final(self).pending() == Seq::<BatchedLine>::empty()
                &&& final(self).window_start() is None
            },
            old(self).pending().len() + 1 < old(self).batch_config().max_batch_size ==> {
                &&& r is None
                &&& final(self).pending() == old(self).pending().push(line)
                &&& final(self).window_start() == match old(self).window_start() {
                    Some(w) => Some(w),
                    None => Some(now),
                }
            },
    {
        self.pending.push(line);
        if self.window_start.is_none() {
            self.window_start = Some(now);
        }
        if self.pending.len() >= self.config.max_batch_size {
            Some(self.emit_batch())
        } else {
            None
        }
    }

    /// The batch window passed: the waiting lines, if any, are handed out.
    pub fn on_tick(&mut self) -> (r: Option<Vec<BatchedLine>>)
        ensures
            final(self).batch_config() == old(self).batch_config(),
            old(self).pending().len() > 0 ==> {
                &&& r matches Some(batch)
                &&& batch@.to_multiset() == old(self).pending().to_multiset()
                &&& batch_sorted(batch@)
                &&& final(self).pending() == Seq::<BatchedLine>::empty()
            },
            old(self).pending().len() == 0 ==> r is None && final(self).pending() == old(self).pending()
                && final(self).window_start() == old(self).window_start(),
    {
        if self.pending.len() > 0 {
            Some(self.emit_batch())
        } else {
            None
        }
    }

    /// No more lines will come: the waiting lines, if any, are handed out.
    pub fn on_close(&mut self) -> (r: Option<Vec<BatchedLine>>)
        ensures
            final(self).batch_config() == old(self).batch_config(),
            old(self).pending().len() > 0 ==> {
                &&& r matches Some(batch)
                &&& batch@.to_multiset() == old(self).pending().to_multiset()
                &&& batch_sorted(batch@)
                &&& final(self).pending() == Seq::<BatchedLine>::empty()
            },
            old(self).pending().len() == 0 ==> r is None && final(self).pending() == old(self).pending(),
    {
        self.on_tick()
    }
}

/// A batch processor with the given configuration.
pub fn batched_with_config(config: BatchConfig) -> (r: BatchProcessor)
    ensures
        r.batch_config() == config,
        r.pending() == Seq::<BatchedLine>::empty(),
{
    BatchProcessor::new(config)
}

proof fn lemma_empty_multiset<A>(s: Seq<A>)
    requires
        s.len() == 0,
    ensures
        s.to_multiset() =~= vstd::multiset::Multiset::empty(),
{
    vstd::seq_lib::to_multiset_len(s);
    vstd::multiset::lemma_multiset_empty_len(s.to_multiset());
}

proof fn lemma_add_empty<A>(m: vstd::multiset::Multiset<A>)
    ensures
        vstd::multiset::Multiset::empty().add(m) =~= m,
        m.add(vstd::multiset::Multiset::empty()) =~= m,
{
    broadcast use vstd::multiset::group_multiset_axioms;
}

proof fn lemma_move_one<A>(s0: Seq<A>, i: int, x: A, rest: Seq<A>)
    requires
        0 <= i <= s0.len(),
    ensures
        s0.insert(i, x).to_multiset().add(rest.to_multiset()) =~= s0.to_multiset().add(rest.push(x).to_multiset()),
{
    vstd::seq_lib::to_multiset_build(rest, x);
    vstd::seq_lib::to_multiset_insert(s0, i, x);
    broadcast use vstd::multiset::group_multiset_axioms;
}

} // verus!

verus! {

/// In a batch in key order, timestamped lines come first, in timestamp
/// order whatever their arrival; lines without a timestamp follow in
/// arrival order.
pub proof fn law_batch_timestamp_order(batch: Seq<BatchedLine>, i: int, j: int)
    requires
        batch_sorted(batch),
        0 <= i < j < batch.len(),
    ensures
        batch[j].timestamp is Some ==> batch[i].timestamp is Some,
        batch[i].timestamp is Some && batch[j].timestamp is Some ==> batch[i].timestamp->0.nanosecond
            <= batch[j].timestamp->0.nanosecond,
        batch[i].timestamp is None && batch[j].timestamp is None ==> batch[i].received_at <= batch[j].received_at,
{
    assert(key_le(batch_key(batch[i]), batch_key(batch[j])));
}

} // verus!
