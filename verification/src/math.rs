use crate::error::PoolError;
use crate::wide::{isqrt_of_product, mul_add_div};
use vstd::prelude::*;

verus! {

/// Largest amplification a ramp may aim at.
pub const MAX_AMP: u64 = 1_000_000;

/// Largest factor by which one ramp may change the amplification.
pub const MAX_AMP_CHANGE: u64 = 10;

/// Least number of seconds between two ramp starts, and least length of a ramp.
pub const MIN_AMP_CHANGING_TIME: u64 = 86_400;

/// Number of Newton steps after which the solver gives up.
pub const ITERATIONS: u64 = 32;

/// Denominator of a fee given in basis points.
pub const BPS_DENOMINATOR: u128 = 10_000;

/// One, as a fixed-point value with eighteen fractional digits.
pub const DECIMAL_FRACTION: u128 = 1_000_000_000_000_000_000;

/// Largest number of decimal places a pool asset may have: the largest
/// power of ten that an amount can hold.
pub const MAX_PRECISION: u8 = 38;

/// `a * b / c`, rounded down, as a mathematical integer.
pub open spec fn ratio_floor(a: int, b: int, c: int) -> int {
    a * b / c
}

/// Ten to the power `e`.
pub open spec fn pow10(e: nat) -> nat
    decreases e,
{
    if e == 0 {
        1
    } else {
        10 * pow10((e - 1) as nat)
    }
}

/// The sum of two amounts.
pub fn checked_add(a: u128, b: u128) -> (r: Result<u128, PoolError>)
    ensures
        a + b <= u128::MAX ==> r == Ok::<u128, PoolError>((a + b) as u128),
        a + b > u128::MAX ==> r == Err::<u128, PoolError>(PoolError::Overflow),
{
    match a.checked_add(b) {
        Some(v) => Ok(v),
        None => Err(PoolError::Overflow),
    }
}

/// The difference of two amounts.
pub fn checked_sub(a: u128, b: u128) -> (r: Result<u128, PoolError>)
    ensures
        a >= b ==> r == Ok::<u128, PoolError>((a - b) as u128),
        a < b ==> r == Err::<u128, PoolError>(PoolError::Underflow),
{
    match a.checked_sub(b) {
        Some(v) => Ok(v),
        None => Err(PoolError::Underflow),
    }
}

/// The product of two amounts.
pub fn checked_mul(a: u128, b: u128) -> (r: Result<u128, PoolError>)
    ensures
        a * b <= u128::MAX ==> r == Ok::<u128, PoolError>((a * b) as u128),
        a * b > u128::MAX ==> r == Err::<u128, PoolError>(PoolError::Overflow),
{
    match a.checked_mul(b) {
        Some(v) => Ok(v),
        None => Err(PoolError::Overflow),
    }
}

/// `a * b / c` rounded down, the product taken at full width.
///
/// Fails with `Overflow` when `c` is zero or the quotient does not fit.
pub fn mul_div(a: u128, b: u128, c: u128) -> (r: Result<u128, PoolError>)
    ensures
        c != 0 && ratio_floor(a as int, b as int, c as int) <= u128::MAX ==> r == Ok::<
            u128,
            PoolError,
        >(ratio_floor(a as int, b as int, c as int) as u128),
        c == 0 || ratio_floor(a as int, b as int, c as int) > u128::MAX ==> r == Err::<
            u128,
            PoolError,
        >(PoolError::Overflow),
{
    if c == 0 {
        return Err(PoolError::Overflow);
    }
    match mul_add_div(a, b, 0, c) {
        Some(v) => Ok(v),
        None => Err(PoolError::Overflow),
    }
}

/// Ten to the power `e`, for an exponent whose power an amount can hold.
pub fn pow10_exec(e: u8) -> (r: u128)
    requires
        e <= MAX_PRECISION,
    ensures
        r == pow10(e as nat),
        1 <= r <= 100_000_000_000_000_000_000_000_000_000_000_000_000,
{
    let mut r: u128 = 1;
    let mut i: u8 = 0;
    while i < e
        invariant
            i <= e <= MAX_PRECISION,
            r == pow10(i as nat),
            1 <= r,
            r * pow10((MAX_PRECISION - i) as nat) == pow10(MAX_PRECISION as nat),
        decreases e - i,
    {
        proof {
            lemma_pow10_38();
            lemma_pow10_positive((MAX_PRECISION - i - 1) as nat);
            assert(pow10((MAX_PRECISION - i) as nat) == 10 * pow10((MAX_PRECISION - i - 1) as nat));
            assert(r * (10 * pow10((MAX_PRECISION - i - 1) as nat)) == (r * 10) * pow10(
                (MAX_PRECISION - i - 1) as nat,
            )) by (nonlinear_arith);
            assert(r * 10 <= (r * 10) * pow10((MAX_PRECISION - i - 1) as nat))
                by (nonlinear_arith)
                requires
                    pow10((MAX_PRECISION - i - 1) as nat) >= 1,
                    r >= 1,
            ;
        }
        r = r * 10;
        i = i + 1;
    }
    proof {
        lemma_pow10_38();
        lemma_pow10_positive((MAX_PRECISION - i) as nat);
        assert(r <= r * pow10((MAX_PRECISION - i) as nat)) by (nonlinear_arith)
            requires
                pow10((MAX_PRECISION - i) as nat) >= 1,
                r >= 1,
        ;
    }
    r
}

/// Every power of ten is positive.
pub proof fn lemma_pow10_positive(e: nat)
    ensures
        pow10(e) >= 1,
    decreases e,
{
    if e > 0 {
        lemma_pow10_positive((e - 1) as nat);
    }
}

/// Ten to the eighteenth.
pub proof fn lemma_pow10_18()
    ensures
        pow10(18) == 1_000_000_000_000_000_000,
{
    reveal_with_fuel(pow10, 19);
}

/// Ten to the thirty-eighth, the largest power of ten that an amount holds.
pub proof fn lemma_pow10_38()
    ensures
        pow10(38) == 100_000_000_000_000_000_000_000_000_000_000_000_000,
        pow10(38) <= u128::MAX,
        10 * pow10(38) > u128::MAX,
{
    lemma_pow10_18();
    lemma_pow10_add(18, 18);
    lemma_pow10_add(36, 2);
    reveal_with_fuel(pow10, 3);
    assert(pow10(2) == 100);
    assert(pow10(36) == 1_000_000_000_000_000_000 * 1_000_000_000_000_000_000);
}

/// The power of a sum is the product of the powers.
pub proof fn lemma_pow10_add(a: nat, b: nat)
    ensures
        pow10(a + b) == pow10(a) * pow10(b),
    decreases b,
{
    if b == 0 {
        assert(pow10(a) * 1 == pow10(a));
    } else {
        lemma_pow10_add(a, (b - 1) as nat);
        assert(pow10(a + b) == 10 * pow10((a + b - 1) as nat));
        assert(10 * (pow10(a) * pow10((b - 1) as nat)) == pow10(a) * (10 * pow10((b - 1) as nat)))
            by (nonlinear_arith);
    }
}

/// A power of ten above the thirty-eighth is more than an amount can hold.
pub proof fn lemma_pow10_large(e: nat)
    requires
        e > 38,
    ensures
        pow10(e) > u128::MAX,
    decreases e,
{
    lemma_pow10_38();
    if e > 39 {
        lemma_pow10_large((e - 1) as nat);
    }
}

/// An amount moved from one decimal precision to another, as a mathematical
/// integer: multiplied up exactly, or divided down and rounded down.
pub open spec fn adjusted(value: int, from: nat, to: nat) -> int {
    if to >= from {
        value * pow10((to - from) as nat)
    } else {
        value / (pow10((from - to) as nat) as int)
    }
}

/// Moves an amount from `from` decimal places to `to` decimal places.
///
/// Scaling down rounds down; scaling up fails with `Overflow` when the
/// result does not fit.
pub fn adjust_precision(value: u128, from: u8, to: u8) -> (r: Result<u128, PoolError>)
    ensures
        adjusted(value as int, from as nat, to as nat) <= u128::MAX ==> r == Ok::<u128, PoolError>(
            adjusted(value as int, from as nat, to as nat) as u128,
        ),
        adjusted(value as int, from as nat, to as nat) > u128::MAX ==> r == Err::<u128, PoolError>(
            PoolError::Overflow,
        ),
{
    if to >= from {
        let steps: u8 = to - from;
        if steps > MAX_PRECISION {
            proof {
                lemma_pow10_large(steps as nat);
                let k = pow10(steps as nat) as int;
                assert(value > 0 ==> value * k > u128::MAX) by (nonlinear_arith)
                    requires
                        k > u128::MAX,
                        value >= 0,
                ;
                assert(value == 0 ==> value * k == 0) by (nonlinear_arith);
            }
            if value == 0 {
                return Ok(0);
            }
            return Err(PoolError::Overflow);
        }
        let factor: u128 = pow10_exec(steps);
        checked_mul(value, factor)
    } else {
        let steps: u8 = from - to;
        if steps > MAX_PRECISION {
            proof {
                lemma_pow10_large(steps as nat);
                let k = pow10(steps as nat) as int;
                assert(value as int / k == 0) by (nonlinear_arith)
                    requires
                        k > u128::MAX,
                        0 <= value <= u128::MAX,
                ;
            }
            return Ok(0);
        }
        let divisor: u128 = pow10_exec(steps);
        proof {
            assert(value as int / (divisor as int) <= value) by (nonlinear_arith)
                requires
                    divisor >= 1,
            ;
            assert(value as int / (divisor as int) >= 0) by (nonlinear_arith)
                requires
                    divisor >= 1,
            ;
        }
        Ok(value / divisor)
    }
}

/// Whether `r` is the integer square root of `v`.
pub open spec fn is_isqrt(r: int, v: int) -> bool {
    r >= 0 && r * r <= v && v < (r + 1) * (r + 1)
}

/// The integer square root of `v`: the largest `r` with `r * r <= v`.
pub open spec fn isqrt(v: int) -> int {
    choose|r: int| is_isqrt(r, v)
}

/// A number has at most one integer square root.
pub proof fn lemma_isqrt_unique(r1: int, r2: int, v: int)
    requires
        is_isqrt(r1, v),
        is_isqrt(r2, v),
    ensures
        r1 == r2,
{
    if r1 < r2 {
        assert((r1 + 1) * (r1 + 1) <= r2 * r2) by (nonlinear_arith)
            requires
                0 <= r1,
                r1 + 1 <= r2,
        ;
    } else if r2 < r1 {
        assert((r2 + 1) * (r2 + 1) <= r1 * r1) by (nonlinear_arith)
            requires
                0 <= r2,
                r2 + 1 <= r1,
        ;
    }
}

/// The integer square root of the product of two amounts, the product
/// taken at full width.
pub fn sqrt_of_product(a: u128, b: u128) -> (r: u128)
    ensures
        r == isqrt(a * b),
        is_isqrt(r as int, a * b),
{
    let r: u128 = isqrt_of_product(a, b);
    proof {
        assert(is_isqrt(r as int, a * b));
        lemma_isqrt_unique(r as int, isqrt(a * b), a * b);
    }
    r
}

/// A fixed-point number with eighteen fractional digits: `atomics` counts
/// units of `1 / DECIMAL_FRACTION`.
#[derive(Clone, Copy, Debug, PartialEq, Eq, Structural)]
pub struct Decimal {
    pub atomics: u128,
}

impl Decimal {
    /// The number one.
    pub fn one() -> (r: Decimal)
        ensures
            r.atomics == DECIMAL_FRACTION,
    {
        Decimal { atomics: DECIMAL_FRACTION }
    }

    /// The number zero.
    pub fn zero() -> (r: Decimal)
        ensures
            r.atomics == 0,
    {
        Decimal { atomics: 0 }
    }

    /// `x` hundredths.
    pub fn percent(x: u64) -> (r: Decimal)
        ensures
            r.atomics == x * 10_000_000_000_000_000,
    {
        Decimal { atomics: (x as u128) * 10_000_000_000_000_000 }
    }

    /// `x` thousandths.
    pub fn permille(x: u64) -> (r: Decimal)
        ensures
            r.atomics == x * 1_000_000_000_000_000,
    {
        Decimal { atomics: (x as u128) * 1_000_000_000_000_000 }
    }

    /// `numerator / denominator`, rounded down to eighteen digits.
    ///
    /// Fails with `Overflow` on a zero denominator and on a ratio too large
    /// to hold.
    pub fn from_ratio(numerator: u128, denominator: u128) -> (r: Result<Decimal, PoolError>)
        ensures
            denominator != 0 && ratio_floor(
                numerator as int,
                DECIMAL_FRACTION as int,
                denominator as int,
            ) <= u128::MAX ==> r == Ok::<Decimal, PoolError>(
                Decimal {
                    atomics: ratio_floor(
                        numerator as int,
                        DECIMAL_FRACTION as int,
                        denominator as int,
                    ) as u128,
                },
            ),
            denominator == 0 || ratio_floor(
                numerator as int,
                DECIMAL_FRACTION as int,
                denominator as int,
            ) > u128::MAX ==> r == Err::<Decimal, PoolError>(PoolError::Overflow),
    {
        let atomics: u128 = mul_div(numerator, DECIMAL_FRACTION, denominator)?;
        Ok(Decimal { atomics })
    }

    /// Whether the number is greater than `other`.
    pub fn gt(&self, other: &Decimal) -> (r: bool)
        ensures
            r == (self.atomics > other.atomics),
    {
        self.atomics > other.atomics
    }

    /// `amount` times the number, rounded down.
    pub fn mul_floor(&self, amount: u128) -> (r: Result<u128, PoolError>)
        ensures
            ratio_floor(amount as int, self.atomics as int, DECIMAL_FRACTION as int) <= u128::MAX
                ==> r == Ok::<u128, PoolError>(
                ratio_floor(amount as int, self.atomics as int, DECIMAL_FRACTION as int) as u128,
            ),
            ratio_floor(amount as int, self.atomics as int, DECIMAL_FRACTION as int) > u128::MAX
                ==> r == Err::<u128, PoolError>(PoolError::Overflow),
    {
        mul_div(amount, self.atomics, DECIMAL_FRACTION)
    }
}

/// Moving an amount to a precision that is not greater never makes it
/// larger, and moving it to its own precision leaves it as it is.
pub proof fn lemma_adjust_down(value: int, from: nat, to: nat)
    requires
        value >= 0,
        to <= from,
    ensures
        0 <= adjusted(value, from, to) <= value,
        from == to ==> adjusted(value, from, to) == value,
{
    lemma_pow10_positive((from - to) as nat);
    let k = pow10((from - to) as nat) as int;
    if to == from {
        assert(k == 1);
        assert(value * 1 == value);
    } else {
        assert(0 <= value / k <= value) by (nonlinear_arith)
            requires
                value >= 0,
                k >= 1,
        ;
    }
}

} // verus!
