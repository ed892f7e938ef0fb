//! A scalar wrapper whose value is saturated into a range on readout.

use vstd::prelude::*;

use crate::fixed::fits_i64;
use crate::fixed::fmul;
use crate::fixed::mul_fx;

verus! {

#[derive(Clone, Copy, Debug, PartialEq, Eq, Structural)]
pub struct Bounded {
    pub val: i64,
}

/// Values strictly inside `(min, max)` pass through; everything at or above
/// `max` saturates to `max`, the rest to `min`.
pub open spec fn saturate_spec(val: int, min: int, max: int) -> int {
    if min < val && val < max {
        val
    } else if val >= max {
        max
    } else {
        min
    }
}

impl Bounded {
    pub fn new(val: i64) -> (r: Bounded)
        ensures
            r == (Bounded { val }),
    {
        Bounded { val }
    }

    /// The stored value, saturated into `[min, max]`.
    pub fn get_saturated(&self, min: i64, max: i64) -> (r: i64)
        ensures
            r as int == saturate_spec(self.val as int, min as int, max as int),
    {
        Bounded::saturate(self.val, min, max)
    }

    /// Saturate an arbitrary scalar into `[min, max]`.
    pub fn saturate(val: i64, min: i64, max: i64) -> (r: i64)
        ensures
            r as int == saturate_spec(val as int, min as int, max as int),
    {
        if min < val && val < max {
            val
        } else if val >= max {
            max
        } else {
            min
        }
    }

    pub fn add(&self, rhs: Bounded) -> (r: Bounded)
        requires
            fits_i64(self.val + rhs.val),
        ensures
            r.val == self.val + rhs.val,
    {
        Bounded::new(self.val + rhs.val)
    }

    /// Fixed-point product of the two raw values.
    pub fn mul(&self, rhs: Bounded) -> (r: Bounded)
        requires
            fits_i64(fmul(self.val as int, rhs.val as int)),
        ensures
            r.val as int == fmul(self.val as int, rhs.val as int),
    {
        Bounded::new(mul_fx(self.val, rhs.val))
    }

    pub fn sub(&self, rhs: Bounded) -> (r: Bounded)
        requires
            fits_i64(self.val - rhs.val),
        ensures
            r.val == self.val - rhs.val,
    {
        Bounded::new(self.val - rhs.val)
    }
}

} // verus!
