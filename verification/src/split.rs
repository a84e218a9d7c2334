//! Splitting a mutable slice into two disjoint mutable halves.

use vstd::prelude::*;

verus! {

/// Splits `s` at `mid` into its first `mid` elements and the rest, both
/// mutable at once. The halves do not overlap, and what is written through
/// them is what `s` holds once they are dropped.
pub fn split_at_mut(s: &mut [i32], mid: usize) -> (halves: (&mut [i32], &mut [i32]))
    requires
        mid <= old(s)@.len(),
    ensures
        halves.0@ == old(s)@.take(mid as int),
        halves.1@ == old(s)@.skip(mid as int),
        final(s)@ == final(halves.0)@ + final(halves.1)@,
{
    s.split_at_mut(mid)
}

} // verus!
