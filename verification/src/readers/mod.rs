//! File reading: chunked reading with line boundaries, the stdin paths for
//! offsets, and the choice of the reader that suits a file and an offset.

use vstd::prelude::*;

pub mod backseek;
pub mod chunked;
pub mod follow;
pub mod stdin;
pub mod strategies;

pub use chunked::{ChunkedFileReader, FileChunk};
pub use strategies::{StaticStrategy, ChunkConfig};

use crate::config::{ConfigOpts, OffsetUnit};
use crate::defaults::processing::{ALWAYS_CHUNKED_FILE_SIZE, CHUNKED_WITH_OFFSET_FILE_SIZE, LARGE_OFFSET_THRESHOLD};

verus! {

/// The kinds of file reader.
#[derive(PartialEq, Eq, Structural, Clone, Copy, Debug)]
pub enum ProcessorKind {
    /// A forward-only buffered reader.
    Buffered,
    /// A chunked reader with bounded memory.
    Chunked,
    /// A reader that can seek back from the end and follow the file.
    BackSeeking,
}

/// The absolute value of an offset.
pub open spec fn abs_offset(offset: i64) -> int {
    if offset < 0 { -offset } else { offset as int }
}

/// The reader for a file of `file_size` bytes: negative offsets, byte
/// offsets and following need the back-seeking reader; otherwise chunking
/// is used when forced, or for files over 1GB, or for files over 100MB read
/// from an offset over 10,000, unless chunking is disabled.
pub open spec fn spec_processor_kind(cfg: ConfigOpts, file_size: u64) -> ProcessorKind {
    let large_offset = abs_offset(cfg.offset) > LARGE_OFFSET_THRESHOLD;
    let use_chunked = !cfg.disable_chunked && (cfg.force_chunked || (file_size > CHUNKED_WITH_OFFSET_FILE_SIZE
        && large_offset) || file_size > ALWAYS_CHUNKED_FILE_SIZE);
    if cfg.offset < 0 || cfg.offset_unit == OffsetUnit::Bytes || cfg.tailing {
        ProcessorKind::BackSeeking
    } else if use_chunked {
        ProcessorKind::Chunked
    } else {
        ProcessorKind::Buffered
    }
}

/// Choose the reader for a file of `file_size` bytes under `cfg`.
pub fn select_processor(cfg: &ConfigOpts, file_size: u64) -> (k: ProcessorKind)
    ensures
        k == spec_processor_kind(*cfg, file_size),
{
    let offset = cfg.offset;
    let large_offset = if offset < 0 {
        offset < -(LARGE_OFFSET_THRESHOLD as i64)
    } else {
        offset > LARGE_OFFSET_THRESHOLD as i64
    };
    let use_chunked = !cfg.disable_chunked && (cfg.force_chunked || (file_size > CHUNKED_WITH_OFFSET_FILE_SIZE
        && large_offset) || file_size > ALWAYS_CHUNKED_FILE_SIZE);
    if offset < 0 || cfg.offset_unit == OffsetUnit::Bytes || cfg.tailing {
        ProcessorKind::BackSeeking
    } else if use_chunked {
        ProcessorKind::Chunked
    } else {
        ProcessorKind::Buffered
    }
}

} // verus!
