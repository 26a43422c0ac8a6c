//! Chunked file processing with line boundaries: chunks of a file, and a
//! reader that joins the partial line at the end of one read to the next,
//! so that each chunk handed out ends on a line boundary.
//!
//! The reader holds the position and the pending bytes; the caller does
//! the reads it asks for and hands over the bytes.

use vstd::prelude::*;

use crate::readers::strategies::StaticStrategy;
use crate::text::{char_views, last_index_of, spec_last_index_of, spec_lines, split_lines, string_of, utf8_text};

verus! {

/// Whether a chunk starting at `start_offset` with `data` starts on a line
/// boundary: it starts the file, or its first byte is not a newline.
pub open spec fn spec_starts_at_boundary(data: Seq<u8>, start_offset: u64) -> bool {
    start_offset == 0 || data.len() == 0 || data[0] != 10u8
}

/// Whether `data` ends on a line boundary: its last byte is a newline.
pub open spec fn spec_ends_at_boundary(data: Seq<u8>) -> bool {
    data.len() > 0 && data.last() == 10u8
}

/// The lines of a chunk: the lines of its text when it is valid UTF-8, none
/// otherwise.
pub open spec fn spec_chunk_lines(data: Seq<u8>) -> Seq<Seq<char>> {
    if vstd::utf8::valid_utf8(data) {
        spec_lines(vstd::utf8::decode_utf8(data))
    } else {
        Seq::empty()
    }
}

/// A chunk of file data with metadata about its position.
#[derive(Debug)]
pub struct FileChunk {
    /// The chunk data.
    pub data: Vec<u8>,
    /// Starting position in the file.
    pub start_offset: u64,
    /// End position in the file (exclusive).
    pub end_offset: u64,
    /// Whether this chunk starts at a line boundary.
    pub starts_at_line_boundary: bool,
    /// Whether this chunk ends at a line boundary.
    pub ends_at_line_boundary: bool,
}

impl FileChunk {
    /// Create a new FileChunk.
    pub fn new(data: Vec<u8>, start_offset: u64, end_offset: u64) -> (c: Self)
        ensures
            c.data@ == data@,
            c.start_offset == start_offset,
            c.end_offset == end_offset,
            c.starts_at_line_boundary == spec_starts_at_boundary(data@, start_offset),
            c.ends_at_line_boundary == spec_ends_at_boundary(data@),
    {
        let starts_at_line_boundary = start_offset == 0 || data.len() == 0 || data[0] != 10u8;
        let ends_at_line_boundary = data.len() > 0 && data[data.len() - 1] == 10u8;
        FileChunk { data, start_offset, end_offset, starts_at_line_boundary, ends_at_line_boundary }
    }

    /// Get the size of this chunk.
    pub fn size(&self) -> (n: usize)
        ensures
            n == self.data.len(),
    {
        self.data.len()
    }

    /// Check if this chunk is empty.
    pub fn is_empty(&self) -> (r: bool)
        ensures
            r == (self.data.len() == 0),
    {
        self.data.len() == 0
    }

    /// The lines of this chunk (none when it is not valid UTF-8).
    pub fn lines(&self) -> (v: Vec<String>)
        ensures
            v@.map_values(|s: String| s@) == spec_chunk_lines(self.data@),
    {
        let mut out: Vec<String> = Vec::new();
        match utf8_text(self.data.as_slice()) {
            Some(text) => {
                let chars = crate::text::chars_of(text.as_str());
                let lines = split_lines(chars.as_slice());
                let mut i: usize = 0;
                while i < lines.len()
                    invariant
                        i <= lines.len(),
                        out@.map_values(|s: String| s@) == char_views(lines@).take(i as int),
                    decreases lines.len() - i,
                {
                    let s = string_of(lines[i].as_slice());
                    proof {
                        assert(char_views(lines@).take(i + 1) =~= char_views(lines@).take(i as int).push(lines@[i as int]@));
                        assert(out@.push(s).map_values(|s: String| s@) =~= out@.map_values(|s: String| s@).push(s@));
                    }
                    out.push(s);
                    i = i + 1;
                }
                assert(char_views(lines@).take(lines.len() as int) =~= char_views(lines@));
            },
            None => {
                assert(out@.map_values(|s: String| s@) =~= Seq::<Seq<char>>::empty());
            },
        }
        out
    }

    /// Find the last complete line boundary in this chunk.
    pub fn find_last_line_boundary(&self) -> (r: Option<usize>)
        ensures
            match r {
                Some(i) => i == spec_last_index_of(self.data@, 10u8),
                None => spec_last_index_of(self.data@, 10u8) == -1,
            },
    {
        last_index_of(self.data.as_slice(), 10u8)
    }

    /// Split this chunk after its last newline: the chunk keeps the bytes up
    /// to and including it, and the bytes after it are returned.
    pub fn split_at_last_line(&mut self) -> (rest: Option<Vec<u8>>)
        requires
            old(self).start_offset + old(self).data.len() <= u64::MAX,
        ensures
            -1 <= spec_last_index_of(old(self).data@, 10u8) < old(self).data@.len(),
            spec_last_index_of(old(self).data@, 10u8) == -1 ==> rest is None && final(self).data@ == old(self).data@
                && final(self).start_offset == old(self).start_offset && final(self).end_offset
                == old(self).end_offset && final(self).starts_at_line_boundary
                == old(self).starts_at_line_boundary && final(self).ends_at_line_boundary
                == old(self).ends_at_line_boundary,
            spec_last_index_of(old(self).data@, 10u8) >= 0 ==> {
                let b = spec_last_index_of(old(self).data@, 10u8);
                &&& rest matches Some(r) && r@ == old(self).data@.skip(b + 1)
                &&& final(self).data@ == old(self).data@.take(b + 1)
                &&& final(self).start_offset == old(self).start_offset
                &&& final(self).end_offset == old(self).start_offset + b + 1
                &&& final(self).ends_at_line_boundary
                &&& final(self).starts_at_line_boundary == old(self).starts_at_line_boundary
            },
    {
        match last_index_of(self.data.as_slice(), 10u8) {
            Some(boundary) => {
                let remainder = self.data.split_off(boundary + 1);
                self.end_offset = self.start_offset + self.data.len() as u64;
                self.ends_at_line_boundary = true;
                Some(remainder)
            },
            None => None,
        }
    }
}

/// The reading state of a chunked file reader: the file size, the position
/// of the next read, and the partial line kept from the previous chunk.
#[derive(Debug)]
pub struct ChunkedFileReader {
    file_size: u64,
    current_position: u64,
    pending_data: Vec<u8>,
    strategy: StaticStrategy,
}

/// What the reader asks for next.
#[derive(PartialEq, Eq, Structural, Clone, Copy, Debug)]
pub enum ReadRequest {
    /// Nothing left: the file is read and no partial line is kept.
    Finished,
    /// Read up to this many bytes from the current position (none at the
    /// end of the file, where only the kept partial line remains) and hand
    /// them to `take_chunk`.
    Read(usize),
}

impl ChunkedFileReader {
    /// The pending bytes never reach back before the start of the file.
    pub closed spec fn wf(&self) -> bool {
        self.pending_data.len() <= self.current_position
    }

    pub closed spec fn spec_file_size(&self) -> u64 {
        self.file_size
    }

    pub closed spec fn spec_position(&self) -> u64 {
        self.current_position
    }

    pub closed spec fn spec_pending(&self) -> Seq<u8> {
        self.pending_data@
    }

    pub closed spec fn spec_chunk_size(&self) -> usize {
        self.strategy.chunk_size
    }

    /// A reader at the start of a file of `file_size` bytes, with the
    /// static strategy for that size.
    pub fn new(file_size: u64) -> (r: Self)
        ensures
            r.wf(),
            r.spec_file_size() == file_size,
            r.spec_position() == 0,
            r.spec_pending() == Seq::<u8>::empty(),
            r.spec_chunk_size() == crate::defaults::spec_round_up(crate::defaults::spec_base_chunk_for_file(file_size) as int, crate::defaults::CHUNK_BLOCK_SIZE as int),
    {
        ChunkedFileReader {
            file_size,
            current_position: 0,
            pending_data: Vec::new(),
            strategy: StaticStrategy::optimal_for_file(file_size),
        }
    }

    /// A reader at the start of a file of `file_size` bytes, with an
    /// explicit strategy.
    pub fn with_strategy(file_size: u64, strategy: StaticStrategy) -> (r: Self)
        ensures
            r.wf(),
            r.spec_file_size() == file_size,
            r.spec_position() == 0,
            r.spec_pending() == Seq::<u8>::empty(),
            r.spec_chunk_size() == strategy.chunk_size,
    {
        ChunkedFileReader { file_size, current_position: 0, pending_data: Vec::new(), strategy }
    }

    /// Get the file size.
    pub fn file_size(&self) -> (n: u64)
        ensures
            n == self.spec_file_size(),
    {
        self.file_size
    }

    /// Get current position in file.
    pub fn position(&self) -> (n: u64)
        ensures
            n == self.spec_position(),
    {
        self.current_position
    }

    /// Check if we've reached the end of file.
    pub fn is_at_end(&self) -> (r: bool)
        ensures
            r == (self.spec_position() >= self.spec_file_size()),
    {
        self.current_position >= self.file_size
    }

    /// What to read next: nothing when the file is done and nothing is
    /// pending; no bytes at the end of the file, where only the pending
    /// partial line remains; else a chunk of the strategy's size.
    pub fn read_request(&self) -> (r: ReadRequest)
        ensures
            r == (if self.spec_position() >= self.spec_file_size() && self.spec_pending().len() == 0 {
                ReadRequest::Finished
            } else if self.spec_position() >= self.spec_file_size() {
                ReadRequest::Read(0)
            } else {
                ReadRequest::Read(self.spec_chunk_size())
            }),
    {
        if self.is_at_end() && self.pending_data.len() == 0 {
            ReadRequest::Finished
        } else if self.is_at_end() {
            ReadRequest::Read(0)
        } else {
            ReadRequest::Read(self.strategy.initial_chunk_size())
        }
    }

    /// Takes the bytes just read and hands out the next chunk: the pending
    /// partial line followed by the new bytes, cut after its last newline
    /// unless it already ends on one or the file is done, in which case the
    /// rest is kept pending. `None` when there was nothing to hand out.
    pub fn take_chunk(&mut self, data: Vec<u8>) -> (r: Option<FileChunk>)
        requires
            old(self).wf(),
            old(self).spec_position() + data@.len() <= u64::MAX,
        ensures
            final(self).wf(),
            final(self).spec_file_size() == old(self).spec_file_size(),
            final(self).spec_chunk_size() == old(self).spec_chunk_size(),
            final(self).spec_position() == old(self).spec_position() + data@.len(),
            match r {
                None => data@.len() == 0 && old(self).spec_pending().len() == 0
                    && final(self).spec_pending() == old(self).spec_pending(),
                Some(chunk) => {
                    // no byte is lost or repeated
                    &&& chunk.data@ + final(self).spec_pending() == old(self).spec_pending() + data@
                    // chunks tile the file
                    &&& chunk.start_offset + old(self).spec_pending().len() == old(self).spec_position()
                    &&& chunk.end_offset + final(self).spec_pending().len() == final(self).spec_position()
                    &&& chunk.end_offset == chunk.start_offset + chunk.data@.len()
                    // a chunk ends on a line boundary unless no newline was found or the file is done
                    &&& final(self).spec_pending().len() > 0 ==> chunk.ends_at_line_boundary
                    &&& final(self).spec_pending().len() > 0 ==> final(self).spec_position() < final(self).spec_file_size()
                    &&& chunk.starts_at_line_boundary == spec_starts_at_boundary(chunk.data@, chunk.start_offset)
                    &&& final(self).spec_pending() == (if !spec_ends_at_boundary(old(self).spec_pending() + data@)
                        && final(self).spec_position() < final(self).spec_file_size()
                        && spec_last_index_of(old(self).spec_pending() + data@, 10u8) >= 0 {
                        (old(self).spec_pending() + data@).skip(spec_last_index_of(old(self).spec_pending() + data@, 10u8) + 1)
                    } else {
                        Seq::<u8>::empty()
                    })
                },
            },
    {
        let pending_len = self.pending_data.len();
        let bytes_read = data.len();
        if data.len() == 0 && pending_len == 0 {
            return None;
        }
        let mut buffer = data;
        let mut combined: Vec<u8> = Vec::new();
        std::mem::swap(&mut combined, &mut self.pending_data);
        combined.append(&mut buffer);
        let start_offset = self.current_position - pending_len as u64;
        self.current_position = self.current_position + bytes_read as u64;
        proof {
            assert(combined@.len() == pending_len + bytes_read);
        }
        let ghost all = combined@;
        assert(all == old(self).pending_data@ + data@);
        assert(self.pending_data@.len() == 0);
        let mut chunk = FileChunk::new(combined, start_offset, self.current_position);
        if !chunk.ends_at_line_boundary && !self.is_at_end() {
            match chunk.split_at_last_line() {
                Some(remainder) => {
                    assert(remainder@.len() <= all.len());
                    self.pending_data = remainder;
                    assert(chunk.data@ + self.pending_data@ =~= all);
                },
                None => {
                    assert(chunk.data@ + self.pending_data@ =~= all);
                },
            }
        } else {
            assert(chunk.data@ + self.pending_data@ =~= all);
        }
        assert(self.wf());
        Some(chunk)
    }
}


/// The number of bytes `b` in `s`.
pub open spec fn spec_count_byte(s: Seq<u8>, b: u8) -> nat
    decreases s.len(),
{
    if s.len() == 0 {
        0
    } else {
        spec_count_byte(s.drop_last(), b) + if s.last() == b { 1nat } else { 0nat }
    }
}

/// How skipping lines goes on after a chunk.
#[derive(PartialEq, Eq, Structural, Clone, Copy, Debug)]
pub enum SkipProgress {
    /// The requested lines are skipped; reading goes on from the pending
    /// bytes.
    Done,
    /// This many lines are skipped so far.
    Continue(u64),
}

impl ChunkedFileReader {
    /// Seeks to `new_pos` (where the caller moved the file): what was read
    /// before no longer matters.
    pub fn seek(&mut self, new_pos: u64) -> (p: u64)
        ensures
            p == new_pos,
            final(self).wf(),
            final(self).spec_position() == new_pos,
            final(self).spec_pending() == Seq::<u8>::empty(),
            final(self).spec_file_size() == old(self).spec_file_size(),
            final(self).spec_chunk_size() == old(self).spec_chunk_size(),
    {
        self.current_position = new_pos;
        self.pending_data.clear();
        new_pos
    }

    /// Back to the beginning of the file.
    pub fn reset(&mut self)
        ensures
            final(self).wf(),
            final(self).spec_position() == 0,
            final(self).spec_pending() == Seq::<u8>::empty(),
            final(self).spec_file_size() == old(self).spec_file_size(),
            final(self).spec_chunk_size() == old(self).spec_chunk_size(),
    {
        self.seek(0);
    }

    /// Skips lines through one chunk, with `lines_skipped` of `count` lines
    /// skipped before it. When the requested line ends inside the chunk,
    /// the bytes after it become the pending bytes and skipping is done.
    /// Otherwise the chunk's lines are counted, and a chunk that does not
    /// end on a newline keeps its unfinished line pending.
    pub fn skip_in_chunk(&mut self, chunk: FileChunk, lines_skipped: u64, count: u64) -> (r: SkipProgress)
        requires
            old(self).wf(),
            lines_skipped < count,
            chunk.data@.len() <= old(self).spec_position(),
        ensures
            final(self).wf(),
            final(self).spec_position() == old(self).spec_position(),
            final(self).spec_file_size() == old(self).spec_file_size(),
            final(self).spec_chunk_size() == old(self).spec_chunk_size(),
            ({
                let d = chunk.data@;
                let need = count - lines_skipped;
                match r {
                    SkipProgress::Done => exists|i: int|
                        0 <= i < d.len() && d[i] == 10u8 && #[trigger] spec_count_byte(d.take(i + 1), 10u8) == need
                            && final(self).spec_pending() == (if i + 1 < d.len() { d.skip(i + 1) } else { old(self).spec_pending() }),
                    SkipProgress::Continue(n) => {
                        &&& spec_count_byte(d, 10u8) < need
                        &&& n == lines_skipped + spec_count_byte(d, 10u8)
                        &&& final(self).spec_pending() == (if !chunk.ends_at_line_boundary {
                            if spec_last_index_of(d, 10u8) >= 0 {
                                if spec_last_index_of(d, 10u8) + 1 < d.len() {
                                    d.skip(spec_last_index_of(d, 10u8) + 1)
                                } else {
                                    old(self).spec_pending()
                                }
                            } else {
                                d
                            }
                        } else {
                            old(self).spec_pending()
                        })
                    },
                }
            }),
    {
        let ghost d = chunk.data@;
        let len = chunk.data.len();
        let mut lines_in_chunk: u64 = 0;
        let mut i: usize = 0;
        assert(d.take(0) =~= Seq::<u8>::empty());
        while i < len
            invariant
                i <= len,
                len == d.len(),
                chunk.data@ == d,
                lines_skipped < count,
                lines_in_chunk == spec_count_byte(d.take(i as int), 10u8),
                lines_in_chunk < count - lines_skipped,
                old(self).wf(),
                d.len() <= old(self).spec_position(),
                self == old(self),
            decreases len - i,
        {
            proof {
                assert(d.take(i + 1).drop_last() =~= d.take(i as int));
            }
            if chunk.data[i] == 10u8 {
                lines_in_chunk = lines_in_chunk + 1;
                if lines_skipped + lines_in_chunk == count {
                    let after = i + 1;
                    if after < len {
                        let mut rest: Vec<u8> = Vec::new();
                        let mut k = after;
                        while k < len
                            invariant
                                after <= k <= len,
                                len == d.len(),
                                chunk.data@ == d,
                                rest@ == d.subrange(after as int, k as int),
                                self == old(self),
                            decreases len - k,
                        {
                            rest.push(chunk.data[k]);
                            k = k + 1;
                        }
                        assert(rest@ =~= d.skip(after as int));
                        self.pending_data = rest;
                    }
                    assert(d[i as int] == 10u8 && spec_count_byte(d.take(i + 1), 10u8) == count - lines_skipped);
                    return SkipProgress::Done;
                }
            }
            i = i + 1;
        }
        assert(d.take(len as int) =~= d);
        let total = lines_skipped + lines_in_chunk;
        if !chunk.ends_at_line_boundary && total < count {
            match last_index_of(chunk.data.as_slice(), 10u8) {
                Some(last_nl) => {
                    let after = last_nl + 1;
                    if after < len {
                        let mut rest: Vec<u8> = Vec::new();
                        let mut k = after;
                        while k < len
                            invariant
                                after <= k <= len,
                                len == d.len(),
                                chunk.data@ == d,
                                rest@ == d.subrange(after as int, k as int),
                            decreases len - k,
                        {
                            rest.push(chunk.data[k]);
                            k = k + 1;
                        }
                        assert(rest@ =~= d.skip(after as int));
                        self.pending_data = rest;
                    }
                },
                None => {
                    self.pending_data = chunk.data;
                },
            }
        }
        SkipProgress::Continue(total)
    }
}

} // verus!
