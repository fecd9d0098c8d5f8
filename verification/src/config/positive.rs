//! Integers that are never zero.

use vstd::prelude::*;

verus! {

/// A 64-bit unsigned integer other than zero.
#[derive(Clone, Copy, Debug, PartialEq, Eq, Hash)]
pub struct PositiveU64 {
    value: u64,
}

impl View for PositiveU64 {
    type V = u64;

    closed spec fn view(&self) -> u64 {
        self.value
    }
}

impl PositiveU64 {
    #[verifier::type_invariant]
    spec fn nonzero(self) -> bool {
        self.value > 0
    }

    /// The number as a `PositiveU64`, or `None` for zero.
    pub fn new(value: u64) -> (res: Option<Self>)
        ensures
            value == 0 <==> res is None,
            res matches Some(n) ==> n@ == value,
    {
        if value == 0 {
            None
        } else {
            Some(Self { value })
        }
    }

    /// The number itself, which is not zero.
    pub fn get(self) -> (value: u64)
        ensures
            value == self@,
            value > 0,
    {
        proof {
            use_type_invariant(&self);
        }
        self.value
    }
}

/// A 16-bit unsigned integer other than zero.
#[derive(Clone, Copy, Debug, PartialEq, Eq, Hash)]
pub struct PositiveU16 {
    value: u16,
}

impl View for PositiveU16 {
    type V = u16;

    closed spec fn view(&self) -> u16 {
        self.value
    }
}

impl PositiveU16 {
    #[verifier::type_invariant]
    spec fn nonzero(self) -> bool {
        self.value > 0
    }

    /// The number as a `PositiveU16`, or `None` for zero.
    pub fn new(value: u16) -> (res: Option<Self>)
        ensures
            value == 0 <==> res is None,
            res matches Some(n) ==> n@ == value,
    {
        if value == 0 {
            None
        } else {
            Some(Self { value })
        }
    }

    /// The number itself, which is not zero.
    pub fn get(self) -> (value: u16)
        ensures
            value == self@,
            value > 0,
    {
        proof {
            use_type_invariant(&self);
        }
        self.value
    }
}

} // verus!
