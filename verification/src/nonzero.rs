//! A signed 8-bit integer that is never zero.

use vstd::prelude::*;

verus! {

/// A divisor: a signed 8-bit integer other than zero. A value of this type
/// can only be made by `new`, which refuses zero.
#[derive(Clone, Copy, Debug, PartialEq, Eq)]
pub struct NonZeroI8 {
    value: i8,
}

impl NonZeroI8 {
    #[verifier::type_invariant]
    spec fn inv(self) -> bool {
        self.value != 0
    }

    /// The integer that this divisor is.
    pub closed spec fn value(self) -> i8 {
        self.value
    }

    /// The divisor that is `v`.
    pub closed spec fn of(v: i8) -> NonZeroI8 {
        NonZeroI8 { value: v }
    }

    /// The divisor made of `v` is `v`.
    pub proof fn lemma_value_of(v: i8)
        ensures
            NonZeroI8::of(v).value() == v,
    {
    }

    /// A divisor is known by its integer.
    pub proof fn lemma_of_value(d: NonZeroI8)
        ensures
            NonZeroI8::of(d.value()) == d,
    {
    }

    /// The divisor `v`, or `None` for zero.
    pub fn new(v: i8) -> (r: Option<NonZeroI8>)
        ensures
            r == if v != 0 {
                Some(NonZeroI8::of(v))
            } else {
                None
            },
    {
        if v != 0 {
            Some(NonZeroI8 { value: v })
        } else {
            None
        }
    }

    /// The integer that this divisor is. It is never zero.
    pub fn get(self) -> (r: i8)
        ensures
            r == self.value(),
            r != 0,
    {
        proof {
            use_type_invariant(self);
        }
        self.value
    }
}

} // verus!
