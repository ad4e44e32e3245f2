//! The worker pool's admission rule. The pool itself — threads pulling
//! jobs from a shared queue — lives outside the library; what is decided
//! here is how many workers a requested size actually starts.

use vstd::prelude::*;

verus! {

/// How many workers a requested pool size starts: at least one, so a pool
/// of size zero behaves as a pool of size one.
pub open spec fn effective_size_spec(size: usize) -> usize {
    if size == 0 {
        1usize
    } else {
        size
    }
}

/// Clamps a requested pool size to at least one worker.
pub fn effective_pool_size(size: usize) -> (r: usize)
    ensures
        r == effective_size_spec(size),
        r >= 1,
{
    if size == 0 {
        1
    } else {
        size
    }
}

/// Law: a pool asked for zero workers starts exactly the workers a pool
/// asked for one starts — there is never an empty pool to deadlock on.
pub proof fn lemma_zero_pool_equals_one()
    ensures
        effective_size_spec(0) == effective_size_spec(1),
        effective_size_spec(0) == 1,
{
}

} // verus!
