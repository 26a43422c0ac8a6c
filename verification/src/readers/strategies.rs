//! Chunk sizing: a static strategy picks a block-aligned chunk size from the
//! file size and keeps it.

use vstd::prelude::*;

use crate::defaults::{spec_base_chunk_for_file, spec_round_up, SystemDefaults, CHUNK_BLOCK_SIZE};

verus! {

/// Configuration for FileChunk processing.
#[derive(Debug, Clone, Copy)]
pub struct ChunkConfig {
    /// Maximum overlap between chunks to handle line boundaries.
    pub overlap_size: usize,
    /// Whether to use memory-constrained processing.
    pub low_memory_mode: bool,
}

impl Default for ChunkConfig {
    fn default() -> (c: Self)
        ensures
            c.overlap_size == 1024 && !c.low_memory_mode,
    {
        ChunkConfig { overlap_size: 1024, low_memory_mode: false }
    }
}

/// A strategy that keeps one chunk size for the whole file.
#[derive(Debug, Clone, Copy)]
pub struct StaticStrategy {
    pub chunk_size: usize,
    pub config: ChunkConfig,
}

impl StaticStrategy {
    /// The strategy for a file of `file_size` bytes.
    pub fn optimal_for_file(file_size: u64) -> (s: Self)
        ensures
            s.chunk_size == spec_round_up(spec_base_chunk_for_file(file_size) as int, CHUNK_BLOCK_SIZE as int),
            s.config.overlap_size == 1024 && !s.config.low_memory_mode,
    {
        StaticStrategy { chunk_size: optimal_chunk_size(file_size), config: ChunkConfig::default() }
    }

    /// The default chunk size with the given configuration.
    pub fn with_config(config: ChunkConfig) -> (s: Self)
        ensures
            s.chunk_size == SystemDefaults::DEFAULT_CHUNK_SIZE,
            s.config == config,
    {
        let mut s = Self::default();
        s.config = config;
        s
    }

    /// The fixed chunk size we should use.
    pub fn initial_chunk_size(&self) -> (n: usize)
        ensures
            n == self.chunk_size,
    {
        self.chunk_size
    }
}

impl Default for StaticStrategy {
    fn default() -> (s: Self)
        ensures
            s.chunk_size == SystemDefaults::DEFAULT_CHUNK_SIZE,
            s.config.overlap_size == 1024 && !s.config.low_memory_mode,
    {
        let aligned_size = align_to_block_size(SystemDefaults::DEFAULT_CHUNK_SIZE, get_optimal_block_size());
        StaticStrategy { chunk_size: aligned_size, config: ChunkConfig::default() }
    }
}

/// Align a size up to the next multiple of the block size.
pub fn align_to_block_size(size: usize, block_size: usize) -> (r: usize)
    requires
        block_size > 0,
        spec_round_up(size as int, block_size as int) <= usize::MAX,
    ensures
        r == spec_round_up(size as int, block_size as int),
{
    let wide = (size as u128 + block_size as u128 - 1) / (block_size as u128) * (block_size as u128);
    wide as usize
}

/// The block size of typical modern filesystems.
pub fn get_optimal_block_size() -> (b: usize)
    ensures
        b == 4096,
{
    4096
}

/// Determine the optimal chunk size for a file of `file_size` bytes.
pub fn optimal_chunk_size(file_size: u64) -> (n: usize)
    ensures
        n == spec_round_up(spec_base_chunk_for_file(file_size) as int, CHUNK_BLOCK_SIZE as int),
        n % CHUNK_BLOCK_SIZE == 0,
{
    SystemDefaults::optimal_chunk_for_file(file_size)
}


/// The direction of a measured speed.
#[derive(PartialEq, Eq, Structural, Clone, Copy, Debug)]
pub enum Trend {
    Improving,
    Stable,
    Degrading,
}

/// Settings of the conservative strategy: a user limit, and the number of
/// files read at once.
#[derive(Debug, Clone, Copy, Default)]
pub struct ConservativeConfig {
    /// User-specified limit.
    pub max_total_mb: Option<usize>,
    /// Count of files being processed.
    pub num_files: usize,
}

/// The strategy for very constrained environments, which only shrinks.
#[derive(Debug, Clone, Copy, Default)]
pub struct ConservativeStrategy {
    pub config: ConservativeConfig,
}

/// The memory limit of the conservative strategy in megabytes: the user's
/// limit, or 10MB per file up to a system limit of a tenth of the memory
/// and at most 200MB (200MB when the memory size is unknown).
pub open spec fn spec_conservative_limit_mb(c: ConservativeConfig, total_ram_mb: Option<usize>) -> int {
    match c.max_total_mb {
        Some(l) => l as int,
        None => {
            let for_files = 10 * c.num_files;
            let system = match total_ram_mb {
                Some(r) => if r / 10 <= 200 { (r / 10) as int } else { 200 },
                None => 200,
            };
            if for_files <= system { for_files } else { system }
        },
    }
}

impl ConservativeConfig {
    /// Responds with a limit in megabytes.
    pub fn calculate_limit_mb(&self, total_ram_mb: Option<usize>) -> (n: usize)
        requires
            self.max_total_mb is None ==> 10 * self.num_files <= usize::MAX,
        ensures
            n == spec_conservative_limit_mb(*self, total_ram_mb),
    {
        if let Some(user_limit) = self.max_total_mb {
            return user_limit;
        }
        let total_for_files = 10 * self.num_files;
        let system_limit: usize = match total_ram_mb {
            Some(total) => if total / 10 <= 200 { total / 10 } else { 200 },
            None => 200,
        };
        if total_for_files <= system_limit { total_for_files } else { system_limit }
    }
}

} // verus!
