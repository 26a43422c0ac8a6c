//! Memory pressure of the process against its allowance, from a sample of
//! its resident size and the free memory of the system.

use vstd::prelude::*;

use crate::defaults::memory::MEMORY_LIMIT_BYTES;

verus! {

/// Memory pressure levels of the process.
#[derive(PartialEq, Eq, Structural, Clone, Copy, Debug)]
pub enum MemoryPressure {
    /// The process could not be measured.
    Unknown,
    /// Below 50% of the allowance.
    Nominal,
    /// 50-70%.
    Low,
    /// 70-85%.
    Medium,
    /// 85-95%.
    High,
    /// 95% and more, or more than the allowance or than the free memory.
    Critical,
}

/// A measurement of the process and the system, in bytes.
#[derive(PartialEq, Eq, Structural, Clone, Copy, Debug)]
pub struct MemorySample {
    /// Resident memory of the process.
    pub rss: usize,
    /// Free memory of the system.
    pub free: usize,
    /// Total memory of the system.
    pub total: usize,
}

/// The pressure level for a usage in percent (`usage * 100 / allowance`,
/// kept exact as a ratio).
pub open spec fn spec_level(usage: int, allowance: int) -> MemoryPressure {
    if usage * 100 < 50 * allowance {
        MemoryPressure::Nominal
    } else if usage * 100 < 70 * allowance {
        MemoryPressure::Low
    } else if usage * 100 < 85 * allowance {
        MemoryPressure::Medium
    } else if usage * 100 < 95 * allowance {
        MemoryPressure::High
    } else {
        MemoryPressure::Critical
    }
}

/// The allowance: the one asked for, else the configured maximum, else
/// `MEMORY_LIMIT_BYTES`.
pub open spec fn spec_allowance(max_allowed_bytes: Option<usize>, configured: Option<usize>) -> usize {
    match max_allowed_bytes {
        Some(m) => m,
        None => match configured {
            Some(c) => c,
            None => MEMORY_LIMIT_BYTES,
        },
    }
}

/// The pressure for a sample: unknown without one; critical over the
/// allowance or over the free memory; else by share of the allowance.
pub open spec fn spec_detect_pressure(sample: Option<MemorySample>, allowance: usize) -> MemoryPressure {
    match sample {
        None => MemoryPressure::Unknown,
        Some(s) => if s.rss > allowance || s.rss > s.free {
            MemoryPressure::Critical
        } else {
            spec_level(s.rss as int, allowance as int)
        },
    }
}

fn level_of(usage: usize, allowance: usize) -> (p: MemoryPressure)
    ensures
        p == spec_level(usage as int, allowance as int),
{
    let u = usage as u128 * 100;
    let a = allowance as u128;
    if u < 50 * a {
        MemoryPressure::Nominal
    } else if u < 70 * a {
        MemoryPressure::Low
    } else if u < 85 * a {
        MemoryPressure::Medium
    } else if u < 95 * a {
        MemoryPressure::High
    } else {
        MemoryPressure::Critical
    }
}

/// Are we under memory pressure? `sample` is the measurement of the process
/// (none when it could not be measured), `max_allowed_bytes` the allowance
/// asked for and `configured` the configured memory maximum.
pub fn detect_memory_pressure(sample: Option<MemorySample>, max_allowed_bytes: Option<usize>, configured: Option<usize>) -> (p: MemoryPressure)
    ensures
        p == spec_detect_pressure(sample, spec_allowance(max_allowed_bytes, configured)),
{
    match sample {
        None => MemoryPressure::Unknown,
        Some(s) => {
            let max_allowed = match max_allowed_bytes {
                Some(m) => m,
                None => match configured {
                    Some(c) => c,
                    None => MEMORY_LIMIT_BYTES,
                },
            };
            if s.rss > max_allowed {
                MemoryPressure::Critical
            } else if s.rss > s.free {
                MemoryPressure::Critical
            } else {
                level_of(s.rss, max_allowed)
            }
        },
    }
}

/// The total memory of the system.
pub fn get_system_ram_bytes(sample: MemorySample) -> (n: usize)
    ensures
        n == sample.total,
{
    sample.total
}

/// The memory the process may still use: the free memory, and no more than
/// what is left of the allowance. Without a measurement of the process,
/// the free memory.
pub fn available_memory_bytes(free: usize, rss: Option<usize>, configured: Option<usize>) -> (n: usize)
    ensures
        n == match rss {
            None => free as int,
            Some(r) => {
                let allowance = spec_allowance(None, configured);
                let remaining = if allowance >= r { allowance - r } else { 0 };
                if free <= remaining { free as int } else { remaining }
            },
        },
{
    match rss {
        None => free,
        Some(r) => {
            let max_allowed = match configured {
                Some(c) => c,
                None => MEMORY_LIMIT_BYTES,
            };
            let remaining_budget = max_allowed.saturating_sub(r);
            if free <= remaining_budget { free } else { remaining_budget }
        },
    }
}

/// The resident memory of the process; zero when it could not be measured.
pub fn process_memory_bytes(sample: Option<MemorySample>) -> (n: usize)
    ensures
        n == match sample {
            Some(s) => s.rss,
            None => 0,
        },
{
    match sample {
        Some(s) => s.rss,
        None => 0,
    }
}

/// Whether the process is short of memory: less than 500 bytes available.
pub fn is_memory_constrained(available_bytes: usize) -> (r: bool)
    ensures
        r == (available_bytes < 500),
{
    available_bytes < 500
}

/// More usage never means less pressure.
pub proof fn law_pressure_level_monotone(u1: int, u2: int, allowance: int)
    requires
        0 <= u1 <= u2,
        allowance >= 0,
    ensures
        level_rank(spec_level(u1, allowance)) <= level_rank(spec_level(u2, allowance)),
{
}

/// The order of pressure levels.
pub open spec fn level_rank(p: MemoryPressure) -> nat {
    match p {
        MemoryPressure::Unknown => 0,
        MemoryPressure::Nominal => 0,
        MemoryPressure::Low => 1,
        MemoryPressure::Medium => 2,
        MemoryPressure::High => 3,
        MemoryPressure::Critical => 4,
    }
}

} // verus!
