//! The step of a global event counter.

use vstd::prelude::*;

verus! {

/// Adds `inc` to `counter`. The sum must fit in a `u32`.
pub fn add_to_count(counter: &mut u32, inc: u32)
    requires
        *old(counter) + inc <= u32::MAX,
    ensures
        *final(counter) == *old(counter) + inc,
{
    *counter += inc;
}

} // verus!
