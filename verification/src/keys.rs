//! Job ids as keys: the highest key under a bound.
//!
//! Both job tables hand out the id after the highest one in use, and find
//! that id again after the job that held it has left.

use vstd::prelude::*;

verus! {

/// The largest key of `keys` that is smaller than `bound`, if there is one.
pub open spec fn highest_below(keys: Set<usize>, bound: usize) -> Option<usize>
    decreases bound,
{
    if bound == 0 {
        None
    } else if keys.contains((bound - 1) as usize) {
        Some((bound - 1) as usize)
    } else {
        highest_below(keys, (bound - 1) as usize)
    }
}

/// `highest_below` names the largest key under the bound, and is absent only
/// when no key lies under it.
pub proof fn lemma_highest_below(keys: Set<usize>, bound: usize)
    ensures
        match highest_below(keys, bound) {
            Some(k) => k < bound && keys.contains(k) && forall|j: usize|
                keys.contains(j) && j < bound ==> j <= k,
            None => forall|j: usize| keys.contains(j) ==> j >= bound,
        },
    decreases bound,
{
    if bound > 0 {
        lemma_highest_below(keys, (bound - 1) as usize);
    }
}

} // verus!
