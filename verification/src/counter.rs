//! The counter register at the heart of the meter.

use vstd::prelude::*;

verus! {

/// The largest value the register can hold.
pub open spec fn max_value() -> nat {
    usize::MAX as nat
}

/// The value that follows `v`: one more, wrapping to zero past the top.
pub open spec fn successor(v: nat) -> nat {
    if v >= max_value() {
        0
    } else {
        v + 1
    }
}

/// A non-negative integer register.
///
/// Every mutating operation takes `&mut self`, so each one is indivisible:
/// no other operation on the same register can overlap with it.
#[derive(Debug)]
pub struct Counter {
    value: usize,
}

impl View for Counter {
    type V = nat;

    closed spec fn view(&self) -> nat {
        self.value as nat
    }
}

impl Counter {
    /// The stored value never exceeds what the register can hold.
    pub proof fn lemma_within_range(&self)
        ensures
            self@ <= max_value(),
    {
    }

    /// A fresh register holding zero.
    pub fn new() -> (counter: Self)
        ensures
            counter@ == 0,
    {
        Counter { value: 0 }
    }

    /// A register holding `value`.
    pub fn holding(value: usize) -> (counter: Self)
        ensures
            counter@ == value as nat,
    {
        Counter { value }
    }

    /// Adds one to the stored value; past the largest value it wraps to zero.
    pub fn increment(&mut self)
        ensures
            final(self)@ == successor(old(self)@),
    {
        if self.value == usize::MAX {
            self.value = 0;
        } else {
            self.value = self.value + 1;
        }
    }

    /// Returns the stored value and leaves it untouched.
    pub fn read(&self) -> (value: usize)
        ensures
            value as nat == self@,
    {
        self.value
    }

    /// Sets the stored value to zero and returns what it held just before.
    pub fn reset_and_take(&mut self) -> (previous: usize)
        ensures
            previous as nat == old(self)@,
            final(self)@ == 0,
    {
        let previous: usize = self.value;
        self.value = 0;
        previous
    }
}

} // verus!
