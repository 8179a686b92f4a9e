//! A bound that is positive by construction.

use vstd::prelude::*;

verus! {

/// A strictly positive bound on a count or on a number of bytes.
///
/// "No bound" is expressed by the absence of a `Limit`, never by zero.
#[derive(Clone, Copy, Debug, PartialEq, Eq)]
pub struct Limit {
    value: usize,
}

impl View for Limit {
    type V = nat;

    closed spec fn view(&self) -> nat {
        self.value as nat
    }
}

impl Limit {
    /// Every limit is positive.
    #[verifier::type_invariant]
    pub open spec fn positive(self) -> bool {
        self@ > 0
    }

    /// A limit of `value`, unless `value` is zero.
    pub fn new(value: usize) -> (r: Option<Limit>)
        ensures
            value == 0 ==> r is None,
            value > 0 ==> r is Some && r->0@ == value,
    {
        if value == 0 {
            None
        } else {
            Some(Limit { value })
        }
    }

    /// The bound as a number; it is never zero.
    pub fn get(self) -> (r: usize)
        ensures
            r == self@,
            r > 0,
    {
        proof {
            use_type_invariant(self);
        }
        self.value
    }
}

} // verus!
