use vstd::prelude::*;

pub mod candidate;
pub mod oracle;
pub mod partition;
pub mod scheduler;
pub mod gpu;
pub mod search;
pub mod submit;
pub mod confirm;

verus! {

/// First nonce of the upper half of the 64-bit search domain; the CPU pool
/// scans below it, the GPU loop starts at it.
pub const HALF_DOMAIN: u64 = u64::MAX / 2;

} // verus!
