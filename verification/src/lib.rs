//! Tale: pretty-printing of newline-delimited JSON logs, with tail-compatible
//! offsets and following. This crate holds the decisions, parsers and
//! buffers of the tool, each with its contract.

pub mod defaults;
pub mod errors;
pub mod text;
pub mod production_defaults;
pub mod config;
pub mod memory_budget;
pub mod readers;
pub mod file_state;
pub mod metrics;
pub mod logpatterns;
pub mod json_profiler;
pub mod multiplexed;

use vstd::prelude::*;

verus! {

/// A line without the newline that ends it, and without a carriage return
/// right before that newline.
pub open spec fn spec_strip_line_ending(s: Seq<char>) -> Seq<char> {
    if s.len() > 0 && s.last() == '\n' {
        let t = s.drop_last();
        if t.len() > 0 && t.last() == '\r' {
            t.drop_last()
        } else {
            t
        }
    } else {
        s
    }
}

/// Strips the trailing newline from a line, and a carriage return before
/// it (Windows line endings).
pub fn strip_line_ending(line: &mut String)
    ensures
        final(line)@ == spec_strip_line_ending(old(line)@),
{
    let chars = text::chars_of(line.as_str());
    let n = chars.len();
    if n > 0 && chars[n - 1] == '\n' {
        let end = if n > 1 && chars[n - 2] == '\r' { n - 2 } else { n - 1 };
        let mut kept: Vec<char> = Vec::new();
        let mut i: usize = 0;
        while i < end
            invariant
                i <= end <= n == chars.len(),
                kept@ == chars@.take(i as int),
            decreases end - i,
        {
            kept.push(chars[i]);
            i = i + 1;
        }
        assert(kept@ =~= spec_strip_line_ending(chars@));
        *line = text::string_of(kept.as_slice());
    }
}

} // verus!
