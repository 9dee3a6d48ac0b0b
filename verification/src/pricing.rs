//! Conversions between collateral, stablecoin and native currency at a
//! fixed-point price.

use crate::ratio::{scale, scale_spec, Fraction};
use vstd::prelude::*;

verus! {

/// Prices are fixed-point numbers with eight implied decimals.
pub const PRICE_SCALE: u128 = 100_000_000;

/// Units of staked collateral that back one price-worth of stablecoin.
pub const COLLATERAL_RATIO: u128 = 5;

/// Numerator of the share that is left after the exchange fee.
pub const FEE_NUMER: u128 = 997;

/// Denominator of the share that is left after the exchange fee.
pub const FEE_DENOM: u128 = 1000;

/// Stablecoin backed by `amount` of staked collateral at `price`:
/// `amount / 5 * price / 10^8`, rounded down once at the end.
pub open spec fn stable_for_stake(amount: u128, price: u128) -> Option<u128> {
    scale_spec(
        Fraction { numer: amount, denom: COLLATERAL_RATIO },
        Fraction { numer: price, denom: PRICE_SCALE },
        Fraction { numer: 1, denom: 1 },
    )
}

/// Stablecoin worth of `amount` units priced at `price`:
/// `price / 10^8 * amount`, rounded down.
pub open spec fn value_at(price: u128, amount: u128) -> Option<u128> {
    scale_spec(
        Fraction { numer: price, denom: PRICE_SCALE },
        Fraction { numer: amount, denom: 1 },
        Fraction { numer: 1, denom: 1 },
    )
}

/// Collateral bought with `deposit` of the native currency:
/// `native_price / price * deposit`, rounded down.
pub open spec fn collateral_for_native(native_price: u128, price: u128, deposit: u128) -> Option<
    u128,
> {
    scale_spec(
        Fraction { numer: native_price, denom: price },
        Fraction { numer: deposit, denom: 1 },
        Fraction { numer: 1, denom: 1 },
    )
}

/// Stablecoin paid for `amount` of collateral at `price`, after the fee:
/// `price / 10^8 * amount * 997 / 1000`, rounded down.
pub open spec fn stable_for_collateral(price: u128, amount: u128) -> Option<u128> {
    scale_spec(
        Fraction { numer: price, denom: PRICE_SCALE },
        Fraction { numer: amount, denom: 1 },
        Fraction { numer: FEE_NUMER, denom: FEE_DENOM },
    )
}

/// Collateral paid for `amount` of stablecoin at `price`, after the fee:
/// `997 / 1000 * amount / (price / 10^8)`, rounded down.
pub open spec fn collateral_for_stable(price: u128, amount: u128) -> Option<u128> {
    scale_spec(
        Fraction { numer: FEE_NUMER, denom: FEE_DENOM },
        Fraction { numer: amount, denom: 1 },
        Fraction { numer: PRICE_SCALE, denom: price },
    )
}

/// Computes [`stable_for_stake`].
pub fn compute_stable_for_stake(amount: u128, price: u128) -> (r: Option<u128>)
    ensures
        r == stable_for_stake(amount, price),
{
    scale(Fraction::new(amount, COLLATERAL_RATIO), Fraction::new(price, PRICE_SCALE), Fraction::whole(1))
}

/// Computes [`value_at`].
pub fn compute_value_at(price: u128, amount: u128) -> (r: Option<u128>)
    ensures
        r == value_at(price, amount),
{
    scale(Fraction::new(price, PRICE_SCALE), Fraction::whole(amount), Fraction::whole(1))
}

/// Computes [`collateral_for_native`].
pub fn compute_collateral_for_native(native_price: u128, price: u128, deposit: u128) -> (r: Option<
    u128,
>)
    ensures
        r == collateral_for_native(native_price, price, deposit),
{
    scale(Fraction::new(native_price, price), Fraction::whole(deposit), Fraction::whole(1))
}

/// Computes [`stable_for_collateral`].
pub fn compute_stable_for_collateral(price: u128, amount: u128) -> (r: Option<u128>)
    ensures
        r == stable_for_collateral(price, amount),
{
    scale(Fraction::new(price, PRICE_SCALE), Fraction::whole(amount), Fraction::new(FEE_NUMER, FEE_DENOM))
}

/// Computes [`collateral_for_stable`].
pub fn compute_collateral_for_stable(price: u128, amount: u128) -> (r: Option<u128>)
    ensures
        r == collateral_for_stable(price, amount),
{
    scale(Fraction::new(FEE_NUMER, FEE_DENOM), Fraction::whole(amount), Fraction::new(PRICE_SCALE, price))
}

} // verus!
