//! A non-negative fixed-point decimal number with 18 fractional digits.
//!
//! Quorums, approval thresholds and delegation fractions are decimal numbers.
//! They are stored as an integer count of `10^-18` units ("attos"), which is
//! exact for every value the governance process works with and keeps all
//! arithmetic in plain machine integers.

use vstd::prelude::*;

verus! {

/// Number of attos in 1.0.
pub const DECIMAL_ONE: u128 = 1_000_000_000_000_000_000;

/// Number of attos in 0.001, the finest granularity the constructor offers.
pub const DECIMAL_THOUSANDTH: u128 = 1_000_000_000_000_000;

/// A non-negative decimal number, stored as attos (units of `10^-18`).
#[derive(Clone, Copy, Debug, PartialEq, Eq, Structural)]
pub struct Decimal {
    /// The value in units of `10^-18`.
    pub attos: u128,
}

impl Decimal {
    /// The number zero.
    pub fn zero() -> (r: Decimal)
        ensures
            r.attos == 0,
    {
        Decimal { attos: 0 }
    }

    /// The number one.
    pub fn one() -> (r: Decimal)
        ensures
            r.attos == DECIMAL_ONE,
    {
        Decimal { attos: DECIMAL_ONE }
    }

    /// The decimal `n / 1000`.
    pub fn from_thousandths(n: u64) -> (r: Decimal)
        ensures
            r.attos == n * DECIMAL_THOUSANDTH,
    {
        Decimal { attos: (n as u128) * DECIMAL_THOUSANDTH }
    }
}

} // verus!
