//! Production default settings: block-aligned chunk sizes, memory bounds and
//! the presets that the `TALE_PRESET` value selects.

use vstd::prelude::*;

use crate::defaults::{
    chars_equal, is_preset_settings, spec_auto_detect, spec_base_chunk_for_file, spec_round_up, CHUNK_BLOCK_SIZE,
};
pub use crate::defaults::{ConfigPreset, PresetSettings};
use crate::text::{chars_of, spec_to_lowercase, to_lowercase};

verus! {

/// Production defaults for chunked file processing.
pub struct ProductionDefaults;

impl ProductionDefaults {
    /// Default memory budget as a percentage of system memory.
    pub const DEFAULT_MEMORY_PERCENTAGE: u64 = 10;
    /// Minimum memory budget (absolute floor).
    pub const MIN_MEMORY_BUDGET: usize = 5 * 1024 * 1024;
    /// Maximum memory budget (safety ceiling).
    pub const MAX_MEMORY_BUDGET: usize = 500 * 1024 * 1024;
    /// Default chunk size for initial processing.
    pub const DEFAULT_CHUNK_SIZE: usize = 32 * 1024;
    /// Minimum chunk size (one block).
    pub const MIN_CHUNK_SIZE: usize = 4 * 1024;
    /// Maximum chunk size.
    pub const MAX_CHUNK_SIZE: usize = 4 * 1024 * 1024;
    /// Default batch window for multi-file processing (ms).
    pub const DEFAULT_BATCH_WINDOW_MS: u64 = 250;
    /// Default line buffer capacity.
    pub const DEFAULT_LINE_CAPACITY: usize = 512;
    /// Default output buffer capacity.
    pub const DEFAULT_OUTPUT_BUFFER_CAPACITY: usize = 4096;
    /// Adaptation interval (chunks between adaptation checks).
    pub const ADAPTATION_INTERVAL: usize = 20;
    /// Memory pressure thresholds, in percent of the limit.
    pub const MEMORY_PRESSURE_LOW_THRESHOLD: u64 = 60;
    pub const MEMORY_PRESSURE_MODERATE_THRESHOLD: u64 = 85;
    pub const MEMORY_PRESSURE_HIGH_THRESHOLD: u64 = 95;
    /// Chunk size factors per pressure level, in percent of the request.
    pub const PRESSURE_FACTOR_LOW: u64 = 100;
    pub const PRESSURE_FACTOR_MODERATE: u64 = 80;
    pub const PRESSURE_FACTOR_HIGH: u64 = 50;
    pub const PRESSURE_FACTOR_CRITICAL: u64 = 25;
    /// Emergency allocation factor, in percent of the requested size.
    pub const EMERGENCY_ALLOCATION_FACTOR: u64 = 25;

    /// Optimal chunk size for a file of `file_size` bytes, block-aligned.
    pub fn optimal_chunk_for_file(file_size: u64) -> (size: usize)
        ensures
            size == spec_round_up(spec_base_chunk_for_file(file_size) as int, CHUNK_BLOCK_SIZE as int),
            size % CHUNK_BLOCK_SIZE == 0,
    {
        let base_size: usize = if file_size <= 102_400 {
            Self::MIN_CHUNK_SIZE
        } else if file_size <= 1_048_576 {
            8 * 1024
        } else if file_size <= 10_485_760 {
            Self::DEFAULT_CHUNK_SIZE
        } else if file_size <= 104_857_600 {
            128 * 1024
        } else if file_size <= 1_073_741_824 {
            512 * 1024
        } else {
            1024 * 1024
        };
        ((base_size + CHUNK_BLOCK_SIZE - 1) / CHUNK_BLOCK_SIZE) * CHUNK_BLOCK_SIZE
    }

    /// Get default strategy based on context.
    pub fn default_strategy() -> (s: &'static str)
        ensures
            s@ == "conservative"@,
    {
        "conservative"
    }

    /// Files over 1MB are read in chunks by default.
    pub fn should_chunk_by_default(file_size: u64) -> (r: bool)
        ensures
            r == (file_size > 1_048_576),
    {
        file_size > 1_048_576
    }
}

/// The preset that a `TALE_PRESET` value selects in production: unknown
/// names select the balanced preset.
pub open spec fn spec_production_preset(name: Seq<char>) -> ConfigPreset {
    let l = spec_to_lowercase(name);
    if l == "low"@ || l == "lowmemory"@ {
        ConfigPreset::LowMemory
    } else if l == "high"@ || l == "performance"@ {
        ConfigPreset::HighPerformance
    } else if l == "conservative"@ || l == "safe"@ {
        ConfigPreset::Conservative
    } else {
        ConfigPreset::Balanced
    }
}

/// Get production-ready configuration from the `TALE_PRESET` value, if set,
/// or by auto-detection from the physical memory size.
pub fn get_production_config(preset_name: Option<&str>, physical_mem: Option<usize>) -> (s: PresetSettings)
    ensures
        is_preset_settings(s, match preset_name {
            Some(n) => spec_production_preset(n@),
            None => spec_auto_detect(physical_mem),
        }),
{
    match preset_name {
        Some(name) => {
            let lower = to_lowercase(name);
            let l = chars_of(lower.as_str());
            let l = l.as_slice();
            if chars_equal(l, "low") || chars_equal(l, "lowmemory") {
                ConfigPreset::LowMemory.settings()
            } else if chars_equal(l, "high") || chars_equal(l, "performance") {
                ConfigPreset::HighPerformance.settings()
            } else if chars_equal(l, "conservative") || chars_equal(l, "safe") {
                ConfigPreset::Conservative.settings()
            } else {
                ConfigPreset::Balanced.settings()
            }
        }
        None => ConfigPreset::auto_detect(physical_mem).settings(),
    }
}

} // verus!
