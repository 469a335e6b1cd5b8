//! The bookkeeping of a throughput run: how many evaluations it makes.

use vstd::prelude::*;

verus! {

/// The number of evaluations in a run of `iterations` rounds over a battery of
/// `angles` angles; `None` where that number does not fit in a `usize`.
pub fn evaluation_count(iterations: usize, angles: usize) -> (count: Option<usize>)
    ensures
        match count {
            Some(n) => n == iterations * angles,
            None => iterations * angles > usize::MAX,
        },
{
    iterations.checked_mul(angles)
}

} // verus!
