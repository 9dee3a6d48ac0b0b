//! Exact products of fractions, rounded down once at the end.

use num_bigint::BigInt;
use num_rational::Ratio;
use num_traits::ToPrimitive;
use vstd::prelude::*;

verus! {

/// A non-negative fraction of two 128-bit integers. It is not kept in lowest
/// terms; a fraction is usable only when its denominator is not zero.
#[derive(Debug, Clone, Copy, PartialEq, Eq, Structural)]
pub struct Fraction {
    pub numer: u128,
    pub denom: u128,
}

impl Fraction {
    /// The fraction `numer / denom`.
    pub fn new(numer: u128, denom: u128) -> (f: Fraction)
        ensures
            f.numer == numer,
            f.denom == denom,
    {
        Fraction { numer, denom }
    }

    /// The fraction `value / 1`.
    pub fn whole(value: u128) -> (f: Fraction)
        ensures
            f.numer == value,
            f.denom == 1,
    {
        Fraction { numer: value, denom: 1 }
    }
}

/// The product of three fractions, rounded down to a whole number. The
/// product itself is exact: nothing is rounded before the final division.
pub open spec fn product_floor(a: Fraction, b: Fraction, c: Fraction) -> int {
    (a.numer as int * b.numer as int * c.numer as int) / (a.denom as int * b.denom as int
        * c.denom as int)
}

/// `value` as a 128-bit amount, or `None` when it does not fit.
pub open spec fn checked_amount(value: int) -> Option<u128> {
    if 0 <= value <= u128::MAX {
        Some(value as u128)
    } else {
        None
    }
}

/// Multiplies three fractions as arbitrary-precision rationals and truncates
/// the product to an integer.
///
/// Trusted: the body builds each fraction with `num_rational::Ratio::new` over
/// `num_bigint::BigInt`, multiplies them with `Ratio`'s `Mul`, and converts the
/// product with `Ratio::to_integer` and `ToPrimitive::to_u128`. The contract
/// claims that `Ratio` arithmetic over `BigInt` is exact, that `to_integer`
/// rounds a non-negative ratio down, and that `to_u128` yields the value when
/// it fits 128 bits and `None` when it does not. `Ratio::new` panics on a zero
/// denominator, which the precondition rules out.
#[verifier::external_body]
fn ratio_product_floor(a: Fraction, b: Fraction, c: Fraction) -> (r: Option<u128>)
    requires
        a.denom != 0,
        b.denom != 0,
        c.denom != 0,
    ensures
        r == checked_amount(product_floor(a, b, c)),
{
    let x = Ratio::<BigInt>::new(BigInt::from(a.numer), BigInt::from(a.denom));
    let y = Ratio::<BigInt>::new(BigInt::from(b.numer), BigInt::from(b.denom));
    let z = Ratio::<BigInt>::new(BigInt::from(c.numer), BigInt::from(c.denom));
    (x * y * z).to_integer().to_u128()
}

/// The floor of `a * b * c` as a 128-bit amount.
///
/// Returns `None` when one of the denominators is zero or when the floor does
/// not fit 128 bits.
pub fn scale(a: Fraction, b: Fraction, c: Fraction) -> (r: Option<u128>)
    ensures
        r == scale_spec(a, b, c),
{
    if a.denom == 0 || b.denom == 0 || c.denom == 0 {
        None
    } else {
        ratio_product_floor(a, b, c)
    }
}

/// What [`scale`] returns.
pub open spec fn scale_spec(a: Fraction, b: Fraction, c: Fraction) -> Option<u128> {
    if a.denom == 0 || b.denom == 0 || c.denom == 0 {
        None
    } else {
        checked_amount(product_floor(a, b, c))
    }
}

} // verus!
