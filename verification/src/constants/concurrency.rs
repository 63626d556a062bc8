//! Thread-count helpers.
use vstd::prelude::*;

verus! {

/// `min(max_cap, max(1, available / 2))`: half the available hardware threads,
/// at least one, and never more than the cap.
pub open spec fn conservative_threads(available: usize, max_cap: usize) -> usize {
    let half: usize = if available / 2 < 1 { 1 } else { available / 2 };
    if half > max_cap {
        max_cap
    } else {
        half
    }
}

/// Conservative thread count for `available` hardware threads:
/// `min(max_cap, max(1, available / 2))`, leaving headroom for the host
/// application and the operating system.
pub fn determine_conservative_threads(available: usize, max_cap: usize) -> (n: usize)
    ensures
        n == conservative_threads(available, max_cap),
        n <= max_cap,
        max_cap >= 1 ==> 1 <= n,
{
    let half = if available / 2 < 1 { 1 } else { available / 2 };
    if half > max_cap {
        max_cap
    } else {
        half
    }
}

} // verus!
