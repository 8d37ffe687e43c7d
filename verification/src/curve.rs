//! The pool's formulas: what they come to, and how they are computed without leaving `i128`.

use crate::arith::{fits, isqrt, quotient};
use crate::error::AmmError;
use vstd::prelude::*;

verus! {

/// Fees are counted in parts of this many.
pub const BPS: i128 = 10_000;

/// Spot prices are scaled by this factor.
pub const PRICE_SCALE: i128 = 1_000_000;

/// `a * b / c`, computed in `i128`.
pub open spec fn mul_div_of(a: i128, b: i128, c: i128) -> Result<i128, AmmError> {
    if !fits(a * b) {
        Err(AmmError::Overflow)
    } else {
        ratio_of(a * b, c as int)
    }
}

/// `a / b`, computed in `i128` from operands that it can hold.
pub open spec fn ratio_of(a: int, b: int) -> Result<i128, AmmError> {
    if b == 0 {
        Err(AmmError::DivisionByZero)
    } else if !fits(quotient(a, b)) {
        Err(AmmError::Overflow)
    } else {
        Ok(quotient(a, b) as i128)
    }
}

/// The square root of `n`, rounded down, or the refusal of a negative number.
pub open spec fn sqrt_of(n: i128) -> Result<i128, AmmError> {
    if n < 0 {
        Err(AmmError::NegativeSquareRoot { n })
    } else {
        Ok(isqrt(n as int) as i128)
    }
}

/// What a swap pays out: the fee is taken off `amount_in`, and the rest moves along the curve
/// `reserve_in * reserve_out = k`.
pub open spec fn output_of(reserve_in: i128, reserve_out: i128, fee_bps: i128, amount_in: i128) -> Result<
    i128,
    AmmError,
> {
    let net = amount_in * (BPS - fee_bps);
    let depth = reserve_in * BPS + net;
    if !fits(BPS - fee_bps) || !fits(net) || !fits(net * reserve_out) || !fits(reserve_in * BPS)
        || !fits(depth) {
        Err(AmmError::Overflow)
    } else {
        ratio_of(net * reserve_out, depth)
    }
}

/// What has to be paid in for a swap to pay out `amount_out`: one more than the exact amount
/// rounded down.
pub open spec fn input_of(reserve_in: i128, reserve_out: i128, fee_bps: i128, amount_out: i128) -> Result<
    i128,
    AmmError,
> {
    let value = reserve_in * amount_out * BPS;
    let depth = (reserve_out - amount_out) * (BPS - fee_bps);
    if !fits(reserve_in * amount_out) || !fits(value) || !fits(reserve_out - amount_out) || !fits(
        BPS - fee_bps,
    ) || !fits(depth) {
        Err(AmmError::Overflow)
    } else {
        match ratio_of(value, depth) {
            Err(e) => Err(e),
            Ok(exact) => if fits(exact + 1) {
                Ok((exact + 1) as i128)
            } else {
                Err(AmmError::Overflow)
            },
        }
    }
}

/// `a + b`, unless it does not fit.
pub(crate) fn sum(a: i128, b: i128) -> (r: Result<i128, AmmError>)
    ensures
        r == (if fits(a + b) { Ok((a + b) as i128) } else { Err(AmmError::Overflow) }),
{
    a.checked_add(b).ok_or(AmmError::Overflow)
}

/// `a - b`, unless it does not fit.
pub(crate) fn difference(a: i128, b: i128) -> (r: Result<i128, AmmError>)
    ensures
        r == (if fits(a - b) { Ok((a - b) as i128) } else { Err(AmmError::Overflow) }),
{
    a.checked_sub(b).ok_or(AmmError::Overflow)
}

/// `a * b`, unless it does not fit.
pub(crate) fn product(a: i128, b: i128) -> (r: Result<i128, AmmError>)
    ensures
        r == (if fits(a * b) { Ok((a * b) as i128) } else { Err(AmmError::Overflow) }),
{
    a.checked_mul(b).ok_or(AmmError::Overflow)
}

/// `a / b`, rounded toward zero, unless there is none or it does not fit.
pub(crate) fn ratio(a: i128, b: i128) -> (r: Result<i128, AmmError>)
    ensures
        r == ratio_of(a as int, b as int),
{
    if b == 0 {
        return Err(AmmError::DivisionByZero);
    }
    a.checked_div(b).ok_or(AmmError::Overflow)
}

/// `a * b / c`, unless there is none or one of its steps does not fit.
pub(crate) fn mul_div(a: i128, b: i128, c: i128) -> (r: Result<i128, AmmError>)
    ensures
        r == mul_div_of(a, b, c),
{
    let scaled: i128 = product(a, b)?;
    ratio(scaled, c)
}

/// What a swap pays out, unless there is no such amount or one of its steps does not fit.
pub(crate) fn output(reserve_in: i128, reserve_out: i128, fee_bps: i128, amount_in: i128) -> (r: Result<
    i128,
    AmmError,
>)
    ensures
        r == output_of(reserve_in, reserve_out, fee_bps, amount_in),
{
    let kept: i128 = difference(BPS, fee_bps)?;
    let net: i128 = product(amount_in, kept)?;
    let value: i128 = product(net, reserve_out)?;
    let scaled: i128 = product(reserve_in, BPS)?;
    let depth: i128 = sum(scaled, net)?;
    ratio(value, depth)
}

/// What has to be paid in for `amount_out`, unless there is no such amount or one of its steps does
/// not fit.
pub(crate) fn input(reserve_in: i128, reserve_out: i128, fee_bps: i128, amount_out: i128) -> (r: Result<
    i128,
    AmmError,
>)
    ensures
        r == input_of(reserve_in, reserve_out, fee_bps, amount_out),
{
    let cost: i128 = product(reserve_in, amount_out)?;
    let value: i128 = product(cost, BPS)?;
    let left: i128 = difference(reserve_out, amount_out)?;
    let kept: i128 = difference(BPS, fee_bps)?;
    let depth: i128 = product(left, kept)?;
    let exact: i128 = ratio(value, depth)?;
    sum(exact, 1)
}

} // verus!
