//! Seeking back from the end of a file: where reading starts for an offset,
//! and the backwards scan for the start of the last lines, one chunk at a
//! time from the end.

use vstd::prelude::*;

use crate::config::OffsetUnit;
use crate::readers::chunked::spec_count_byte;

verus! {

/// Where to start reading a file.
#[derive(PartialEq, Eq, Structural, Clone, Copy, Debug)]
pub enum SeekPlan {
    /// From this byte position.
    FromStart(u64),
    /// From this many bytes before the end (zero or negative).
    FromEnd(i64),
    /// From the start of the last this many lines.
    LinesBack(u64),
}

/// The start of reading: an empty file, and positive line offsets (skipped
/// by the reader), start at the beginning; a negative line offset starts
/// that many lines from the end; byte and block offsets seek from the start
/// when positive and from the end when negative; a zero offset starts at the
/// end when following, at the beginning otherwise.
pub open spec fn spec_seek_plan(offset: i64, unit: OffsetUnit, tailing: bool, file_size: u64) -> SeekPlan {
    if file_size == 0 {
        SeekPlan::FromStart(0)
    } else {
        match unit {
            OffsetUnit::Lines => if offset > 0 {
                SeekPlan::FromStart(0)
            } else if offset < 0 {
                SeekPlan::LinesBack((-offset) as u64)
            } else if tailing {
                SeekPlan::FromEnd(0)
            } else {
                SeekPlan::FromStart(0)
            },
            OffsetUnit::Bytes => if offset > 0 {
                SeekPlan::FromStart(offset as u64)
            } else if offset < 0 {
                SeekPlan::FromEnd(offset)
            } else if tailing {
                SeekPlan::FromEnd(0)
            } else {
                SeekPlan::FromStart(0)
            },
            OffsetUnit::Blocks => if offset > 0 {
                SeekPlan::FromStart((offset * 512) as u64)
            } else if offset < 0 {
                SeekPlan::FromEnd((offset * 512) as i64)
            } else if tailing {
                SeekPlan::FromEnd(0)
            } else {
                SeekPlan::FromStart(0)
            },
        }
    }
}

/// Find where to start reading a file of `file_size` bytes for an offset.
pub fn seek_plan(offset: i64, units: OffsetUnit, tailing: bool, file_size: u64) -> (p: SeekPlan)
    requires
        offset != i64::MIN,
        units == OffsetUnit::Blocks ==> i64::MIN <= offset * 512 <= i64::MAX,
    ensures
        p == spec_seek_plan(offset, units, tailing, file_size),
{
    if file_size == 0 {
        return SeekPlan::FromStart(0);
    }
    match units {
        OffsetUnit::Lines => {
            if offset > 0 {
                SeekPlan::FromStart(0)
            } else if offset < 0 {
                SeekPlan::LinesBack((-offset) as u64)
            } else if tailing {
                SeekPlan::FromEnd(0)
            } else {
                SeekPlan::FromStart(0)
            }
        },
        OffsetUnit::Bytes => {
            if offset > 0 {
                SeekPlan::FromStart(offset as u64)
            } else if offset < 0 {
                SeekPlan::FromEnd(offset)
            } else if tailing {
                SeekPlan::FromEnd(0)
            } else {
                SeekPlan::FromStart(0)
            }
        },
        OffsetUnit::Blocks => {
            if offset > 0 {
                SeekPlan::FromStart((offset as u64) * 512)
            } else if offset < 0 {
                SeekPlan::FromEnd(offset * 512)
            } else if tailing {
                SeekPlan::FromEnd(0)
            } else {
                SeekPlan::FromStart(0)
            }
        },
    }
}

/// The number of newlines to pass, counting back from the end, before the
/// last `line_count` lines start: one fewer when the file does not end with
/// a newline.
pub fn target_newlines(ends_with_newline: bool, line_count: u64) -> (t: u64)
    requires
        ends_with_newline || line_count > 0,
    ensures
        t == if ends_with_newline { line_count } else { (line_count - 1) as u64 },
{
    if ends_with_newline { line_count } else { line_count - 1 }
}

/// The size of the next chunk to read backwards from `pos`.
pub fn back_chunk_size(pos: u64) -> (n: u64)
    ensures
        n == if pos < 8192 { pos } else { 8192 },
{
    if pos < 8192 { pos } else { 8192 }
}

/// Where a backwards scan stands after a chunk.
#[derive(PartialEq, Eq, Structural, Clone, Copy, Debug)]
pub enum BackScan {
    /// The last lines start at this byte position.
    Found(u64),
    /// Not enough newlines yet: this many seen so far.
    Continue(u64),
    /// The scan reached the start of the file: the lines start there.
    AtStart,
}

/// Scans a chunk that starts at byte `chunk_start`, from its end
/// backwards, having seen `lines_found` newlines after it. The start is
/// found just after the newline that takes the count past `target`.
pub fn scan_back(chunk: &[u8], chunk_start: u64, lines_found: u64, target: u64) -> (r: BackScan)
    requires
        lines_found <= target,
        target < u64::MAX,
        chunk_start + chunk@.len() <= u64::MAX,
    ensures
        match r {
            BackScan::Found(p) => exists|i: int|
                0 <= i < chunk@.len() && chunk@[i] == 10u8 && p == chunk_start + i + 1
                    && lines_found + #[trigger] spec_count_byte(chunk@.skip(i), 10u8) == target + 1,
            BackScan::Continue(n) => chunk_start > 0 && n == lines_found + spec_count_byte(chunk@, 10u8) && n <= target,
            BackScan::AtStart => chunk_start == 0 && lines_found + spec_count_byte(chunk@, 10u8) <= target,
        },
{
    let mut found = lines_found;
    let mut i = chunk.len();
    assert(chunk@.skip(i as int) =~= Seq::<u8>::empty());
    while i > 0
        invariant
            i <= chunk.len(),
            found == lines_found + spec_count_byte(chunk@.skip(i as int), 10u8),
            found <= target,
            target < u64::MAX,
            chunk_start + chunk@.len() <= u64::MAX,
        decreases i,
    {
        let k = i - 1;
        proof {
            lemma_count_prepend(chunk@.skip(k as int), 10u8);
            assert(chunk@.skip(k as int).skip(1) =~= chunk@.skip(i as int));
        }
        if chunk[k] == 10u8 {
            found = found + 1;
            if found > target {
                return BackScan::Found(chunk_start + k as u64 + 1);
            }
        }
        i = k;
    }
    assert(chunk@.skip(0) =~= chunk@);
    if chunk_start == 0 {
        BackScan::AtStart
    } else {
        BackScan::Continue(found)
    }
}

/// Counting from the front: the first byte and the rest.
pub proof fn lemma_count_prepend(s: Seq<u8>, b: u8)
    requires
        s.len() > 0,
    ensures
        spec_count_byte(s, b) == (if s[0] == b { 1nat } else { 0nat }) + spec_count_byte(s.skip(1), b),
    decreases s.len(),
{
    if s.len() > 1 {
        lemma_count_prepend(s.drop_last(), b);
        assert(s.drop_last().skip(1) =~= s.skip(1).drop_last());
        assert(s.skip(1).last() == s.last());
    } else {
        assert(s.skip(1) =~= Seq::<u8>::empty());
        assert(s.drop_last() =~= Seq::<u8>::empty());
    }
}

} // verus!

verus! {

/// Where reading starts for a tail offset on a non-empty file: a negative
/// line count `-N` starts at the last `N` lines (never at a byte distance
/// from the end); a positive line count starts at the beginning, where the
/// lines are skipped; a negative byte count `-N` starts `N` bytes before
/// the end and a positive one `N` bytes after the start; a zero offset
/// starts at the end when following and at the beginning otherwise.
pub proof fn law_seek_plan(offset: i64, tailing: bool, file_size: u64)
    requires
        file_size > 0,
        offset != i64::MIN,
    ensures
        offset < 0 ==> spec_seek_plan(offset, OffsetUnit::Lines, tailing, file_size) == SeekPlan::LinesBack(
            (-offset) as u64,
        ),
        offset > 0 ==> spec_seek_plan(offset, OffsetUnit::Lines, tailing, file_size) == SeekPlan::FromStart(0),
        offset < 0 ==> spec_seek_plan(offset, OffsetUnit::Bytes, tailing, file_size) == SeekPlan::FromEnd(offset),
        offset > 0 ==> spec_seek_plan(offset, OffsetUnit::Bytes, tailing, file_size) == SeekPlan::FromStart(
            offset as u64,
        ),
        offset == 0 ==> spec_seek_plan(offset, OffsetUnit::Lines, tailing, file_size) == (if tailing {
            SeekPlan::FromEnd(0)
        } else {
            SeekPlan::FromStart(0)
        }),
{
}

/// An empty file is always read from its start.
pub proof fn law_seek_plan_empty(offset: i64, unit: OffsetUnit, tailing: bool)
    ensures
        spec_seek_plan(offset, unit, tailing, 0) == SeekPlan::FromStart(0),
{
}

} // verus!
