//! Types that can say what they are.

use vstd::prelude::*;

verus! {

/// A type with a human-readable name.
pub trait Foo {
    fn name(&self) -> &str;
}

impl Foo for i32 {
    fn name(&self) -> (n: &str)
        ensures
            n@ == "i32です"@,
    {
        "i32です"
    }
}

} // verus!
