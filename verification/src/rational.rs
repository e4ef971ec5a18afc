//! Exact non-negative rational values.
//!
//! Privacy-loss parameters and batch sampling rates are exact quotients of
//! machine integers (a batch size over a population size), so the crate keeps
//! them as numerator/denominator pairs instead of rounding them to a float.

use vstd::prelude::*;
use crate::Error;

verus! {

/// A non-negative rational number `num / den`.
///
/// A value is well formed when its denominator is at least one; every
/// constructor of this crate establishes that.
#[derive(Clone, Copy, Debug, PartialEq, Eq, Structural)]
pub struct Ratio {
    pub num: u64,
    pub den: u64,
}

impl Ratio {
    /// Well-formedness: the denominator is positive.
    pub open spec fn wf(self) -> bool {
        self.den >= 1
    }

    /// The two pairs denote the same rational number (cross multiplication).
    pub open spec fn same_rational(self, other: Ratio) -> bool {
        self.num * other.den == other.num * self.den
    }

    /// The denoted rational is strictly positive.
    pub open spec fn is_positive(self) -> bool {
        self.num >= 1
    }

    /// Builds `num / den`; a zero denominator is rejected.
    pub fn new(num: u64, den: u64) -> (r: Result<Ratio, Error>)
        ensures
            den >= 1 ==> r == Ok::<Ratio, Error>((Ratio { num, den })),
            den == 0 ==> r == Err::<Ratio, Error>(Error::InvalidArgument),
    {
        if den == 0 {
            Err(Error::InvalidArgument)
        } else {
            Ok(Ratio { num, den })
        }
    }

    /// The rational `n / 1`.
    pub fn from_integer(n: u64) -> (r: Ratio)
        ensures
            r == (Ratio { num: n, den: 1 }),
    {
        Ratio { num: n, den: 1 }
    }

    /// Decides whether two ratios denote the same rational number.
    pub fn same_value(&self, other: &Ratio) -> (r: bool)
        ensures
            r == self.same_rational(*other),
    {
        proof {
            assert((self.num as u128) * (other.den as u128) <= u64::MAX as u128 * u64::MAX as u128)
                by (nonlinear_arith)
                requires self.num <= u64::MAX && other.den <= u64::MAX,
            ;
            assert((other.num as u128) * (self.den as u128) <= u64::MAX as u128 * u64::MAX as u128)
                by (nonlinear_arith)
                requires other.num <= u64::MAX && self.den <= u64::MAX,
            ;
        }
        (self.num as u128) * (other.den as u128) == (other.num as u128) * (self.den as u128)
    }

    /// Decides whether the denoted rational is strictly positive.
    pub fn positive(&self) -> (r: bool)
        ensures
            r == self.is_positive(),
    {
        self.num >= 1
    }
}

} // verus!
