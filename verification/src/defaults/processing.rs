//! File processing thresholds and decision constants.

use vstd::prelude::*;

verus! {

/// Large offset threshold: offsets above this suggest large file operations.
pub const LARGE_OFFSET_THRESHOLD: u64 = 10_000;

/// File size requiring chunked processing when combined with a large offset.
pub const CHUNKED_WITH_OFFSET_FILE_SIZE: u64 = 100 * 1024 * 1024;

/// File size that always requires chunked processing regardless of offset.
pub const ALWAYS_CHUNKED_FILE_SIZE: u64 = 1024 * 1024 * 1024;

/// Number of chunks between strategy adaptation checks.
pub const ADAPTATION_INTERVAL: usize = 20;

/// The traditional unix block size in bytes.
pub const BLOCK_SIZE: u64 = 512;

} // verus!
