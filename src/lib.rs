//! Null-aware columnar kernels, a schema evolver for batches, and the decision logic of a
//! staged streaming pipeline: line framing, record transformation and stage transitions.
use vstd::prelude::*;

pub mod batch;
pub mod column;
pub mod framer;
pub mod kernels;
pub mod records;
pub mod stage;

verus! {

/// Sum of two unsigned integers.
pub fn add(left: u64, right: u64) -> (r: u64)
    requires
        left + right <= u64::MAX,
    ensures
        r == left + right,
{
    left + right
}

} // verus!
