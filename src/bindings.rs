//! Small helpers exposed to the JavaScript bindings.

use vstd::prelude::*;

verus! {

/// The sum of two numbers that fit together in 64 bits.
pub fn add(left: u64, right: u64) -> (r: u64)
    requires
        left + right <= u64::MAX,
    ensures
        r == left + right,
{
    left + right
}

} // verus!
