//! Memory management constants.

use vstd::prelude::*;

verus! {

/// Memory limit for line buffering in negative line offset mode.
pub const MEMORY_LIMIT_BYTES: usize = 10 * 1024 * 1024;

} // verus!
