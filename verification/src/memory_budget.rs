//! Memory budget management for chunked file processing: a budget tracks
//! total usage against a limit, hands out allocations while they fit, and
//! reports the pressure level of its usage.

use vstd::prelude::*;

use crate::errors::TaleError;

verus! {

/// Memory pressure levels.
#[derive(PartialEq, Eq, Structural, Clone, Copy, Debug)]
pub enum MemoryPressure {
    /// Memory usage below 60% of the limit.
    Low,
    /// Memory usage from 60% to below 85% of the limit.
    Moderate,
    /// Memory usage from 85% to below 95% of the limit.
    High,
    /// Memory usage at 95% of the limit or more.
    Critical,
}

/// The pressure of `usage` bytes against a limit of `limit` bytes. A zero
/// limit is always critical.
pub open spec fn spec_pressure(usage: nat, limit: nat) -> MemoryPressure {
    if usage * 100 < 60 * limit {
        MemoryPressure::Low
    } else if usage * 100 < 85 * limit {
        MemoryPressure::Moderate
    } else if usage * 100 < 95 * limit {
        MemoryPressure::High
    } else {
        MemoryPressure::Critical
    }
}

/// The state of a budget: its limit, current usage and peak usage.
pub struct BudgetView {
    pub limit: nat,
    pub usage: nat,
    pub peak: nat,
}

/// A budget after trying to allocate `size` bytes: the allocation is
/// granted exactly when it keeps usage within the limit.
pub open spec fn spec_try_allocate(b: BudgetView, size: nat) -> Option<BudgetView> {
    if b.usage + size > b.limit {
        None
    } else {
        let usage = b.usage + size;
        Some(BudgetView { limit: b.limit, usage, peak: if b.peak >= usage { b.peak } else { usage } })
    }
}

/// A budget after giving back an allocation of `size` bytes; usage never
/// drops below zero.
pub open spec fn spec_release(b: BudgetView, size: nat) -> BudgetView {
    BudgetView {
        limit: b.limit,
        usage: if b.usage >= size { (b.usage - size) as nat } else { 0 },
        peak: b.peak,
    }
}

/// A tracked memory allocation, to be given back to its budget.
#[derive(Debug)]
pub struct MemoryAllocation {
    size: usize,
}

impl MemoryAllocation {
    pub closed spec fn spec_size(&self) -> nat {
        self.size as nat
    }

    pub fn size(&self) -> (s: usize)
        ensures
            s == self.spec_size(),
    {
        self.size
    }

    /// Gives this allocation back to `budget`.
    pub fn deallocate(self, budget: &mut MemoryBudget)
        ensures
            final(budget)@ == spec_release(old(budget)@, self.spec_size()),
    {
        budget.release(self.size);
    }
}

/// Memory budget manager.
#[derive(Debug)]
pub struct MemoryBudget {
    total_limit: usize,
    current_usage: usize,
    peak_usage: usize,
}

impl View for MemoryBudget {
    type V = BudgetView;

    closed spec fn view(&self) -> BudgetView {
        BudgetView {
            limit: self.total_limit as nat,
            usage: self.current_usage as nat,
            peak: self.peak_usage as nat,
        }
    }
}

/// The limit that `percentage` percent of `memory` bytes gives, cut off at
/// the largest `usize`.
pub open spec fn spec_share_limit(memory: nat, percentage: nat) -> nat {
    let share = memory * percentage / 100;
    if share > usize::MAX { usize::MAX as nat } else { share }
}

impl MemoryBudget {
    /// Usage stays within the limit and never above the peak.
    #[verifier::type_invariant]
    closed spec fn inv(&self) -> bool {
        self.current_usage <= self.total_limit && self.current_usage <= self.peak_usage
    }

    /// Create a new memory budget with the specified limit (in bytes).
    pub fn new(total_limit: usize) -> (r: Result<Self, TaleError>)
        ensures
            r matches Ok(b) && b@ == (BudgetView { limit: total_limit as nat, usage: 0, peak: 0 }),
    {
        Ok(MemoryBudget { total_limit, current_usage: 0, peak_usage: 0 })
    }

    /// Create a memory budget of `percentage` percent of the system memory
    /// size in bytes (1GB when unknown).
    pub fn from_system_memory(percentage: u64, physical_mem: Option<usize>) -> (r: Result<Self, TaleError>)
        ensures
            r matches Ok(b) && b@ == (BudgetView {
                limit: spec_share_limit(
                    match physical_mem {
                        Some(m) => m as nat,
                        None => 1024 * 1024 * 1024,
                    },
                    percentage as nat,
                ),
                usage: 0,
                peak: 0,
            }),
    {
        let system_memory: usize = match physical_mem {
            Some(m) => m,
            None => 1024 * 1024 * 1024,
        };
        let sm = system_memory as u128;
        let pct = percentage as u128;
        assert(sm * pct <= u128::MAX) by (nonlinear_arith)
            requires
                sm <= u64::MAX,
                pct <= u64::MAX,
        ;
        let share = sm * pct / 100;
        let limit: usize = if share > usize::MAX as u128 { usize::MAX } else { share as usize };
        Self::new(limit)
    }

    /// Try to allocate memory: `None` if it would go over budget.
    pub fn try_allocate(&mut self, size: usize) -> (r: Result<Option<MemoryAllocation>, TaleError>)
        ensures
            match spec_try_allocate(old(self)@, size as nat) {
                Some(after) => r matches Ok(Some(a)) && a.spec_size() == size && final(self)@ == after
                    && after.usage <= after.limit,
                None => r matches Ok(None) && final(self)@ == old(self)@,
            },
    {
        proof {
            use_type_invariant(&*self);
        }
        if size > self.total_limit - self.current_usage {
            return Ok(None);
        }
        let new_usage = self.current_usage + size;
        let peak = if new_usage > self.peak_usage { new_usage } else { self.peak_usage };
        *self = MemoryBudget { total_limit: self.total_limit, current_usage: new_usage, peak_usage: peak };
        Ok(Some(MemoryAllocation { size }))
    }

    /// Gives `size` bytes back to the budget.
    fn release(&mut self, size: usize)
        ensures
            final(self)@ == spec_release(old(self)@, size as nat),
    {
        proof {
            use_type_invariant(&*self);
        }
        self.current_usage = self.current_usage.saturating_sub(size);
    }

    /// Get current memory pressure level.
    pub fn current_pressure(&self) -> (r: Result<MemoryPressure, TaleError>)
        ensures
            r == Ok::<MemoryPressure, TaleError>(spec_pressure(self@.usage, self@.limit)),
    {
        Ok(pressure_of(self.current_usage, self.total_limit))
    }

    /// The chunk size to use instead of `requested` under the current
    /// pressure: all of it, 80%, half, or a quarter.
    pub fn recommended_chunk_size(&self, requested: usize) -> (r: Result<usize, TaleError>)
        ensures
            r == Ok::<usize, TaleError>(match spec_pressure(self@.usage, self@.limit) {
                MemoryPressure::Low => requested,
                MemoryPressure::Moderate => (requested as nat * 80 / 100) as usize,
                MemoryPressure::High => (requested as nat * 50 / 100) as usize,
                MemoryPressure::Critical => (requested as nat * 25 / 100) as usize,
            }),
    {
        let factor: u128 = match pressure_of(self.current_usage, self.total_limit) {
            MemoryPressure::Low => 100,
            MemoryPressure::Moderate => 80,
            MemoryPressure::High => 50,
            MemoryPressure::Critical => 25,
        };
        let req = requested as u128;
        assert(req * factor <= req * 100) by (nonlinear_arith)
            requires
                factor <= 100,
        ;
        Ok((req * factor / 100) as usize)
    }

    /// Get current memory usage statistics.
    pub fn usage_stats(&self) -> (r: Result<MemoryBudgetStats, TaleError>)
        ensures
            r matches Ok(s) && s.total_limit == self@.limit && s.current_usage == self@.usage && s.peak_usage
                == self@.peak && s.pressure == spec_pressure(self@.usage, self@.limit),
    {
        Ok(MemoryBudgetStats {
            total_limit: self.total_limit,
            current_usage: self.current_usage,
            peak_usage: self.peak_usage,
            pressure: pressure_of(self.current_usage, self.total_limit),
        })
    }
}

/// The pressure of `usage` against `limit`.
fn pressure_of(usage: usize, limit: usize) -> (p: MemoryPressure)
    ensures
        p == spec_pressure(usage as nat, limit as nat),
{
    let u = usage as u128 * 100;
    let l = limit as u128;
    if u < 60 * l {
        MemoryPressure::Low
    } else if u < 85 * l {
        MemoryPressure::Moderate
    } else if u < 95 * l {
        MemoryPressure::High
    } else {
        MemoryPressure::Critical
    }
}

/// Memory budget usage statistics.
#[derive(Debug)]
pub struct MemoryBudgetStats {
    pub total_limit: usize,
    pub current_usage: usize,
    pub peak_usage: usize,
    pub pressure: MemoryPressure,
}

impl MemoryBudgetStats {
    /// The memory left in the budget.
    pub fn available_memory(&self) -> (r: usize)
        ensures
            r == if self.total_limit >= self.current_usage { self.total_limit - self.current_usage } else { 0 },
    {
        self.total_limit.saturating_sub(self.current_usage)
    }
}

/// Giving back an allocation that was granted restores the usage that the
/// budget had before.
pub proof fn law_allocate_then_release(b: BudgetView, size: nat)
    requires
        spec_try_allocate(b, size) is Some,
    ensures
        spec_release(spec_try_allocate(b, size)->0, size).usage == b.usage,
        spec_release(spec_try_allocate(b, size)->0, size).limit == b.limit,
{
}

/// An allocation is refused exactly when it would take usage past the
/// limit, and a refusal leaves the budget as it was.
pub proof fn law_allocation_within_limit(b: BudgetView, size: nat)
    ensures
        spec_try_allocate(b, size) is Some <==> b.usage + size <= b.limit,
        spec_try_allocate(b, size) matches Some(a) ==> a.usage <= a.limit && a.usage <= a.peak && a.peak >= b.peak,
{
}

/// More usage never means less pressure.
pub proof fn law_pressure_monotone(u1: nat, u2: nat, limit: nat)
    requires
        u1 <= u2,
    ensures
        pressure_rank(spec_pressure(u1, limit)) <= pressure_rank(spec_pressure(u2, limit)),
{
}

/// The order of pressure levels.
pub open spec fn pressure_rank(p: MemoryPressure) -> nat {
    match p {
        MemoryPressure::Low => 0,
        MemoryPressure::Moderate => 1,
        MemoryPressure::High => 2,
        MemoryPressure::Critical => 3,
    }
}

} // verus!
