//! A thin wrapper around a numeric value, with range-checked
//! arithmetic on the concrete instantiation the crate uses.

use vstd::prelude::*;

verus! {

/// A numeric value carried as a named field.
#[derive(Debug, Clone, Copy, PartialEq)]
pub struct Number<T> {
    pub val: T,
}

impl Number<u64> {
    /// The sum; the caller keeps it in range.
    pub fn add(self, rhs: Self) -> (r: Self)
        requires
            self.val + rhs.val <= u64::MAX,
        ensures
            r.val == self.val + rhs.val,
    {
        Number { val: self.val + rhs.val }
    }

    /// The difference; the caller keeps it nonnegative.
    pub fn sub(self, rhs: Self) -> (r: Self)
        requires
            rhs.val <= self.val,
        ensures
            r.val == self.val - rhs.val,
    {
        Number { val: self.val - rhs.val }
    }

    /// The product; the caller keeps it in range.
    pub fn mul(self, rhs: Self) -> (r: Self)
        requires
            self.val * rhs.val <= u64::MAX,
        ensures
            r.val == self.val * rhs.val,
    {
        Number { val: self.val * rhs.val }
    }

    /// The quotient, rounded toward zero; the divisor is nonzero.
    pub fn div(self, rhs: Self) -> (r: Self)
        requires
            rhs.val != 0,
        ensures
            r.val == self.val / rhs.val,
    {
        Number { val: self.val / rhs.val }
    }
}

} // verus!
