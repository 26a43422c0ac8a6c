//! Basic I/O and processing constants.

use vstd::prelude::*;

verus! {

/// How long we wait before flushing data to stdout when tailing, in
/// milliseconds.
pub const TAIL_FLUSH_INTERVAL: u64 = 250;

/// Flush stdout when we've written at least this many lines.
pub const FLUSH_LINE_COUNT: u16 = 40;

/// Default capacity for line strings.
pub const LINE_CAPACITY: usize = 512;

/// Buffer size for reading from stdin/files.
pub const READ_BUFFER_SIZE: usize = 8192;

/// Default capacity for output byte buffers.
pub const OUTPUT_BUFFER_CAPACITY: usize = 1024;

/// The initial chunk size to use for adaptive chunked readers.
pub const INITIAL_CHUNK_SIZE: usize = 32 * 1024;

} // verus!
