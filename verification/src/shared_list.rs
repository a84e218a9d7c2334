//! A cons list whose tails are reference counted, so several lists can share
//! one tail without copying it.

use std::rc::Rc;
use vstd::prelude::*;

verus! {

/// A list of `i32` values; each non-empty list holds a counted reference to
/// its tail.
pub enum List {
    Cons(i32, Rc<List>),
    Nil,
}

impl List {
    /// The values of the list, from the head on.
    pub open spec fn values(self) -> Seq<i32>
        decreases self,
    {
        match self {
            List::Cons(head, tail) => seq![head] + (*tail).values(),
            List::Nil => Seq::empty(),
        }
    }
}

/// `Rc::clone`: another counted handle to the same allocation, so the value
/// it gives access to is the one behind `r`. The count that the clone adds is
/// not modelled.
#[verifier::external_body]
fn rc_clone(r: &Rc<List>) -> (c: Rc<List>)
    ensures
        *c == **r,
{
    Rc::clone(r)
}

/// A list that starts with `head` followed by the values of `tail`.
///
/// The body takes one more counted reference to `tail` instead of copying
/// it; the contract states the values, and the tests check the reference
/// count.
pub fn cons_shared(head: i32, tail: &Rc<List>) -> (l: List)
    ensures
        l.values() == seq![head] + (**tail).values(),
{
    List::Cons(head, rc_clone(tail))
}

} // verus!
