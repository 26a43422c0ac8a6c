//! System defaults: chunk sizes by file size, presets, and the constants
//! that the readers share.

use vstd::prelude::*;

use crate::text::{chars_of, spec_to_lowercase, to_lowercase};

pub mod io;
pub mod memory;
pub mod processing;

verus! {

/// The filesystem block size to which chunk sizes are aligned.
pub const CHUNK_BLOCK_SIZE: usize = 4096;

/// The chunk size before block alignment, by file-size band.
pub open spec fn spec_base_chunk_for_file(file_size: u64) -> nat {
    if file_size <= 102_400 {
        SystemDefaults::MIN_CHUNK_SIZE as nat
    } else if file_size <= 1_048_576 {
        8 * 1024
    } else if file_size <= 10_485_760 {
        SystemDefaults::DEFAULT_CHUNK_SIZE as nat
    } else if file_size <= 104_857_600 {
        128 * 1024
    } else if file_size <= 1_073_741_824 {
        512 * 1024
    } else {
        1024 * 1024
    }
}

/// Rounds `size` up to the next multiple of `block`.
pub open spec fn spec_round_up(size: int, block: int) -> int {
    ((size + block - 1) / block) * block
}

/// System defaults for chunked file processing.
pub struct SystemDefaults;

impl SystemDefaults {
    /// Default memory budget as a percentage of system memory.
    pub const DEFAULT_MEMORY_PERCENTAGE: u64 = 10;
    /// Minimum memory budget in bytes.
    pub const MIN_MEMORY_BUDGET: usize = 5 * 1024 * 1024;
    /// Maximum memory budget in bytes.
    pub const MAX_MEMORY_BUDGET: usize = 500 * 1024 * 1024;
    /// Default chunk size for initial processing.
    pub const DEFAULT_CHUNK_SIZE: usize = 32 * 1024;
    /// Minimum chunk size (one block).
    pub const MIN_CHUNK_SIZE: usize = 4 * 1024;
    /// Maximum chunk size.
    pub const MAX_CHUNK_SIZE: usize = 4 * 1024 * 1024;

    /// The chunk size for a file of `file_size` bytes: a size per band of
    /// file sizes, aligned up to a 4KB block.
    pub fn optimal_chunk_for_file(file_size: u64) -> (size: usize)
        ensures
            size == spec_round_up(spec_base_chunk_for_file(file_size) as int, CHUNK_BLOCK_SIZE as int),
            size % CHUNK_BLOCK_SIZE == 0,
    {
        let base_size: usize = if file_size <= 102_400 {
            Self::MIN_CHUNK_SIZE
        } else if file_size <= 1_048_576 {
            8 * 1024
        } else if file_size <= 10_485_760 {
            Self::DEFAULT_CHUNK_SIZE
        } else if file_size <= 104_857_600 {
            128 * 1024
        } else if file_size <= 1_073_741_824 {
            512 * 1024
        } else {
            1024 * 1024
        };
        let blocks: usize = (base_size + CHUNK_BLOCK_SIZE - 1) / CHUNK_BLOCK_SIZE;
        blocks * CHUNK_BLOCK_SIZE
    }

    /// The default chunking strategy.
    pub fn default_strategy() -> (s: &'static str)
        ensures
            s@ == "conservative"@,
    {
        "conservative"
    }

    /// Files over 1MB are read in chunks by default.
    pub fn should_chunk_by_default(file_size: u64) -> (r: bool)
        ensures
            r == (file_size > 1_048_576),
    {
        file_size > 1_048_576
    }

    /// Default batch window for multi-file processing (ms).
    pub const DEFAULT_BATCH_WINDOW_MS: u64 = 250;
    /// Default line buffer capacity.
    pub const DEFAULT_LINE_CAPACITY: usize = 512;
    /// Default output buffer capacity.
    pub const DEFAULT_OUTPUT_BUFFER_CAPACITY: usize = 4096;
    /// Adaptation interval (chunks between adaptation checks).
    pub const ADAPTATION_INTERVAL: usize = 20;
    /// Memory pressure thresholds, in percent of the limit: below the low
    /// one is Low, below the moderate one Moderate, below the high one High,
    /// and Critical from there on.
    pub const MEMORY_PRESSURE_LOW_THRESHOLD: u64 = 60;
    pub const MEMORY_PRESSURE_MODERATE_THRESHOLD: u64 = 85;
    pub const MEMORY_PRESSURE_HIGH_THRESHOLD: u64 = 95;
    /// Chunk size factors per pressure level, in percent of the request.
    pub const PRESSURE_FACTOR_LOW: u64 = 100;
    pub const PRESSURE_FACTOR_MODERATE: u64 = 80;
    pub const PRESSURE_FACTOR_HIGH: u64 = 50;
    pub const PRESSURE_FACTOR_CRITICAL: u64 = 25;
    /// Emergency allocation factor, in percent of the requested size.
    pub const EMERGENCY_ALLOCATION_FACTOR: u64 = 25;
}

/// System configuration presets.
#[derive(PartialEq, Eq, Structural, Clone, Copy, Debug)]
pub enum ConfigPreset {
    /// Optimized for small files and low memory systems.
    LowMemory,
    /// Balanced performance and memory usage.
    Balanced,
    /// Optimized for maximum performance.
    HighPerformance,
    /// Optimized for memory-constrained environments.
    Conservative,
}

/// Configuration settings for each preset. The memory percentage is a
/// whole number of percent.
pub struct PresetSettings {
    pub memory_percentage: u64,
    pub max_memory_mb: usize,
    pub default_chunk_kb: usize,
    pub max_chunk_kb: usize,
    pub strategy: &'static str,
    pub force_chunked: bool,
    pub adaptation_interval: usize,
}

/// The numbers of a preset, without its strategy name:
/// (memory percentage, max memory MB, default chunk KB, max chunk KB,
/// forced chunking, adaptation interval).
pub open spec fn spec_preset_numbers(p: ConfigPreset) -> (u64, usize, usize, usize, bool, usize) {
    match p {
        ConfigPreset::LowMemory => (5, 50, 16, 256, true, 10),
        ConfigPreset::Balanced => (10, 200, 32, 2048, false, 20),
        ConfigPreset::HighPerformance => (20, 500, 128, 4096, false, 30),
        ConfigPreset::Conservative => (5, 100, 16, 512, true, 10),
    }
}

/// The strategy name of a preset.
pub open spec fn spec_preset_strategy(p: ConfigPreset) -> Seq<char> {
    match p {
        ConfigPreset::LowMemory => "conservative"@,
        ConfigPreset::Balanced => "conservative"@,
        ConfigPreset::HighPerformance => "adaptive"@,
        ConfigPreset::Conservative => "static"@,
    }
}

/// Whether `s` holds the settings of preset `p`.
pub open spec fn is_preset_settings(s: PresetSettings, p: ConfigPreset) -> bool {
    let n = spec_preset_numbers(p);
    &&& s.memory_percentage == n.0
    &&& s.max_memory_mb == n.1
    &&& s.default_chunk_kb == n.2
    &&& s.max_chunk_kb == n.3
    &&& s.force_chunked == n.4
    &&& s.adaptation_interval == n.5
    &&& s.strategy@ == spec_preset_strategy(p)
}

/// The preset for a machine with `total_memory_mb` megabytes of memory.
pub open spec fn spec_preset_for_memory(total_memory_mb: int) -> ConfigPreset {
    if total_memory_mb <= 2048 {
        ConfigPreset::LowMemory
    } else if total_memory_mb <= 8192 {
        ConfigPreset::Conservative
    } else if total_memory_mb <= 16384 {
        ConfigPreset::Balanced
    } else {
        ConfigPreset::HighPerformance
    }
}

/// The preset detected from the physical memory size in bytes, when known.
pub open spec fn spec_auto_detect(physical_mem: Option<usize>) -> ConfigPreset {
    match physical_mem {
        Some(bytes) => spec_preset_for_memory(bytes as int / (1024 * 1024) as int),
        None => ConfigPreset::Balanced,
    }
}

impl ConfigPreset {
    /// Get settings for this preset.
    pub fn settings(&self) -> (s: PresetSettings)
        ensures
            is_preset_settings(s, *self),
    {
        match self {
            ConfigPreset::LowMemory => PresetSettings {
                memory_percentage: 5,
                max_memory_mb: 50,
                default_chunk_kb: 16,
                max_chunk_kb: 256,
                strategy: "conservative",
                force_chunked: true,
                adaptation_interval: 10,
            },
            ConfigPreset::Balanced => PresetSettings {
                memory_percentage: 10,
                max_memory_mb: 200,
                default_chunk_kb: 32,
                max_chunk_kb: 2048,
                strategy: "conservative",
                force_chunked: false,
                adaptation_interval: 20,
            },
            ConfigPreset::HighPerformance => PresetSettings {
                memory_percentage: 20,
                max_memory_mb: 500,
                default_chunk_kb: 128,
                max_chunk_kb: 4096,
                strategy: "adaptive",
                force_chunked: false,
                adaptation_interval: 30,
            },
            ConfigPreset::Conservative => PresetSettings {
                memory_percentage: 5,
                max_memory_mb: 100,
                default_chunk_kb: 16,
                max_chunk_kb: 512,
                strategy: "static",
                force_chunked: true,
                adaptation_interval: 10,
            },
        }
    }

    /// Detect the best preset from the physical memory size in bytes; when
    /// the memory size is unknown, the balanced preset.
    pub fn auto_detect(physical_mem: Option<usize>) -> (p: Self)
        ensures
            p == spec_auto_detect(physical_mem),
    {
        match physical_mem {
            Some(bytes) => {
                let total_memory_mb = bytes / (1024 * 1024);
                if total_memory_mb <= 2048 {
                    ConfigPreset::LowMemory
                } else if total_memory_mb <= 8192 {
                    ConfigPreset::Conservative
                } else if total_memory_mb <= 16384 {
                    ConfigPreset::Balanced
                } else {
                    ConfigPreset::HighPerformance
                }
            }
            None => ConfigPreset::Balanced,
        }
    }
}

/// The preset that a `TALE_PRESET` value names, compared case-insensitively.
pub open spec fn spec_preset_from_name(name: Seq<char>) -> Option<ConfigPreset> {
    let l = spec_to_lowercase(name);
    if l == "low"@ || l == "lowmemory"@ || l == "low_memory"@ {
        Some(ConfigPreset::LowMemory)
    } else if l == "balanced"@ || l == "balance"@ {
        Some(ConfigPreset::Balanced)
    } else if l == "high"@ || l == "highperformance"@ || l == "high_performance"@ {
        Some(ConfigPreset::HighPerformance)
    } else if l == "conservative"@ || l == "conserve"@ {
        Some(ConfigPreset::Conservative)
    } else {
        None
    }
}

/// Whether the characters `a` spell exactly `lit`.
pub fn chars_equal(a: &[char], lit: &str) -> (r: bool)
    ensures
        r == (a@ == lit@),
{
    let b = chars_of(lit);
    if a.len() != b.len() {
        return false;
    }
    let mut i: usize = 0;
    while i < a.len()
        invariant
            i <= a.len(),
            a.len() == b.len(),
            b@ == lit@,
            forall|k: int| 0 <= k < i ==> a@[k] == b@[k],
        decreases a.len() - i,
    {
        if a[i] != b[i] {
            return false;
        }
        i = i + 1;
    }
    assert(a@ =~= b@);
    true
}

/// The preset that a `TALE_PRESET` value names, if it names one.
pub fn preset_from_name(name: &str) -> (p: Option<ConfigPreset>)
    ensures
        p == spec_preset_from_name(name@),
{
    let lower = to_lowercase(name);
    let l = chars_of(lower.as_str());
    let l = l.as_slice();
    if chars_equal(l, "low") || chars_equal(l, "lowmemory") || chars_equal(l, "low_memory") {
        Some(ConfigPreset::LowMemory)
    } else if chars_equal(l, "balanced") || chars_equal(l, "balance") {
        Some(ConfigPreset::Balanced)
    } else if chars_equal(l, "high") || chars_equal(l, "highperformance") || chars_equal(l, "high_performance") {
        Some(ConfigPreset::HighPerformance)
    } else if chars_equal(l, "conservative") || chars_equal(l, "conserve") {
        Some(ConfigPreset::Conservative)
    } else {
        None
    }
}

/// The preset in force: the one that the `TALE_PRESET` value names, and
/// detection from the memory size when there is no value or it names none.
pub open spec fn spec_system_preset(preset_name: Option<Seq<char>>, physical_mem: Option<usize>) -> ConfigPreset {
    match preset_name {
        Some(name) => match spec_preset_from_name(name) {
            Some(p) => p,
            None => spec_auto_detect(physical_mem),
        },
        None => spec_auto_detect(physical_mem),
    }
}

/// Get the system configuration from the `TALE_PRESET` value, if set, or by
/// auto-detection from the physical memory size.
pub fn get_system_config(preset_name: Option<&str>, physical_mem: Option<usize>) -> (s: PresetSettings)
    ensures
        is_preset_settings(s, spec_system_preset(match preset_name { Some(n) => Some(n@), None => None }, physical_mem)),
{
    let preset = match preset_name {
        Some(name) => match preset_from_name(name) {
            Some(p) => p,
            None => ConfigPreset::auto_detect(physical_mem),
        },
        None => ConfigPreset::auto_detect(physical_mem),
    };
    preset.settings()
}

} // verus!
