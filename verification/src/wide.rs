use cosmwasm_std::{Decimal, Isqrt, Uint128, Uint256};
use vstd::prelude::*;

verus! {

/// `cosmwasm_std::Uint128::multiply_ratio`: `a * numerator / denominator`,
/// rounded down, with the product taken at full width. The outside function
/// panics on a zero denominator and on a quotient that does not fit 128 bits;
/// both are ruled out here.
#[verifier::external_body]
pub(crate) fn multiply_ratio(a: u128, numerator: u128, denominator: u128) -> (r: u128)
    requires
        denominator != 0,
        a * numerator / (denominator as int) <= u128::MAX,
    ensures
        r == a * numerator / (denominator as int),
{
    Uint128::new(a).multiply_ratio(numerator, denominator).u128()
}

/// `cosmwasm_std::Uint128::full_mul`, then addition and division of
/// `cosmwasm_std::Uint256`, then `Uint128::try_from`: `(a * b + c) / d`
/// rounded down, with nothing lost in between; `None` when the quotient does
/// not fit 128 bits. The sum stays below 2^256, so the addition cannot fail.
#[verifier::external_body]
pub(crate) fn mul_add_div(a: u128, b: u128, c: u128, d: u128) -> (r: Option<u128>)
    requires
        d != 0,
    ensures
        (a * b + c) / (d as int) <= u128::MAX ==> r == Some(((a * b + c) / (d as int)) as u128),
        (a * b + c) / (d as int) > u128::MAX ==> r.is_none(),
{
    let sum = Uint128::new(a).full_mul(b) + Uint256::from(c);
    match Uint128::try_from(sum / Uint256::from(d)) {
        Ok(q) => Some(q.u128()),
        Err(_) => None,
    }
}

/// `cosmwasm_std::Uint128::full_mul`, then `cosmwasm_std::Isqrt::isqrt` on
/// the 256-bit product: the integer square root of `a * b`, the largest `r`
/// with `r * r <= a * b`. It is at most the larger factor, so it fits.
#[verifier::external_body]
pub(crate) fn isqrt_of_product(a: u128, b: u128) -> (r: u128)
    ensures
        r * r <= a * b,
        a * b < (r + 1) * (r + 1),
{
    Uint128::try_from(Uint128::new(a).full_mul(b).isqrt()).unwrap().u128()
}

/// `cosmwasm_std::Decimal::from_ratio`, then the product of a
/// `cosmwasm_std::Uint128` and a `cosmwasm_std::Decimal`: `a` times the
/// fixed-point number of `atomics` units of 10^-18, rounded down. The ratio
/// `atomics / 10^18` is formed exactly; the product panics when it does not
/// fit 128 bits, which is ruled out here.
#[verifier::external_body]
pub(crate) fn mul_decimal(a: u128, atomics: u128) -> (r: u128)
    requires
        a * atomics / 1_000_000_000_000_000_000 <= u128::MAX,
    ensures
        r == a * atomics / 1_000_000_000_000_000_000,
{
    let d = Decimal::from_ratio(atomics, 1_000_000_000_000_000_000u128);
    (Uint128::new(a) * d).u128()
}

/// What `cosmwasm_std::Decimal` prints for the fixed-point number of
/// `atomics` units of 10^-18.
pub uninterp spec fn decimal_text(atomics: u128) -> Seq<char>;

/// `cosmwasm_std::Decimal::from_ratio`, then `to_string` through the
/// `Display` of `cosmwasm_std::Decimal`: the number written with its whole
/// part, and after a point its fractional digits without trailing zeros.
/// The result depends on `atomics` alone.
#[verifier::external_body]
pub(crate) fn decimal_to_string(atomics: u128) -> (r: String)
    ensures
        r@ == decimal_text(atomics),
{
    Decimal::from_ratio(atomics, 1_000_000_000_000_000_000u128).to_string()
}

} // verus!
