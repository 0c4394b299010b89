//! Order and equality of values.

use vstd::prelude::*;
use crate::scalar::format::Scalar;

verus! {

impl Scalar {
    /// Where a value that is a number stands on the line: its magnitude
    /// bits, negated under the sign. Both zeros stand at 0.
    pub open spec fn spec_rank(self) -> int {
        if self.spec_is_negative() {
            -(self.spec_magnitude() as int)
        } else {
            self.spec_magnitude() as int
        }
    }

    /// Less than. No comparison holds of a value that is not a number.
    pub open spec fn spec_lt(self, rhs: Scalar) -> bool {
        !self.spec_is_nan() && !rhs.spec_is_nan() && self.spec_rank() < rhs.spec_rank()
    }

    /// Less than or equal.
    pub open spec fn spec_le(self, rhs: Scalar) -> bool {
        !self.spec_is_nan() && !rhs.spec_is_nan() && self.spec_rank() <= rhs.spec_rank()
    }

    /// Greater than.
    pub open spec fn spec_gt(self, rhs: Scalar) -> bool {
        rhs.spec_lt(self)
    }

    /// Greater than or equal.
    pub open spec fn spec_ge(self, rhs: Scalar) -> bool {
        rhs.spec_le(self)
    }

    /// Equal as numbers: the two zeros are, and nothing equals a value that
    /// is not a number.
    pub open spec fn spec_equals(self, rhs: Scalar) -> bool {
        !self.spec_is_nan() && !rhs.spec_is_nan() && self.spec_rank() == rhs.spec_rank()
    }

    /// The same value: equal as numbers, or both not a number.
    pub open spec fn spec_same(self, rhs: Scalar) -> bool {
        if self.spec_is_nan() || rhs.spec_is_nan() {
            self.spec_is_nan() && rhs.spec_is_nan()
        } else {
            self.spec_rank() == rhs.spec_rank()
        }
    }

    /// Where the value stands on the line.
    fn rank(self) -> (r: i64)
        ensures
            r == self.spec_rank(),
    {
        let magnitude = self.magnitude_bits() as i64;
        if self.is_negative() {
            -magnitude
        } else {
            magnitude
        }
    }

    /// Whether the value is less than `rhs`.
    pub fn lt(self, rhs: Scalar) -> (r: bool)
        ensures
            r == self.spec_lt(rhs),
    {
        !self.is_nan() && !rhs.is_nan() && self.rank() < rhs.rank()
    }

    /// Whether the value is less than or equal to `rhs`.
    pub fn le(self, rhs: Scalar) -> (r: bool)
        ensures
            r == self.spec_le(rhs),
    {
        !self.is_nan() && !rhs.is_nan() && self.rank() <= rhs.rank()
    }

    /// Whether the value is greater than `rhs`.
    pub fn gt(self, rhs: Scalar) -> (r: bool)
        ensures
            r == self.spec_gt(rhs),
    {
        rhs.lt(self)
    }

    /// Whether the value is greater than or equal to `rhs`.
    pub fn ge(self, rhs: Scalar) -> (r: bool)
        ensures
            r == self.spec_ge(rhs),
    {
        rhs.le(self)
    }

    /// Whether the two are equal as numbers.
    pub fn equals(self, rhs: Scalar) -> (r: bool)
        ensures
            r == self.spec_equals(rhs),
    {
        !self.is_nan() && !rhs.is_nan() && self.rank() == rhs.rank()
    }
}

} // verus!
