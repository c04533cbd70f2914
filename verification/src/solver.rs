use crate::error::PoolError;
use crate::math::{checked_add, checked_mul, checked_sub, mul_div, ITERATIONS};
use crate::wide::mul_add_div;
use vstd::prelude::*;

verus! {

/// The coefficient `A * n^n` of the invariant. The pool's amplification
/// parameter `amp` holds `A * n^(n-1)`, so the coefficient is `amp * n`.
pub open spec fn leverage(amp: int) -> int {
    amp * 2
}

/// Whether a value fits an unsigned 128-bit amount.
pub open spec fn fits(v: int) -> bool {
    0 <= v <= u128::MAX
}

/// `D_p = D^3 / (n^n * x0 * x1)`, each division rounded down in turn.
pub open spec fn d_prod(x0: int, x1: int, d: int) -> int {
    (d * d / (2 * x0)) * d / (2 * x1)
}

/// `A * n^n * S + n * D_p`.
pub open spec fn d_numer(ann: int, x0: int, x1: int, d: int) -> int {
    ann * (x0 + x1) + 2 * d_prod(x0, x1, d)
}

/// `(A * n^n - 1) * D + (n + 1) * D_p`.
pub open spec fn d_denom(ann: int, x0: int, x1: int, d: int) -> int {
    (ann - 1) * d + 3 * d_prod(x0, x1, d)
}

/// The Newton step on `D`.
pub open spec fn d_next(ann: int, x0: int, x1: int, d: int) -> int {
    d_numer(ann, x0, x1, d) * d / d_denom(ann, x0, x1, d)
}

/// Whether every value of one Newton step on `D` fits, and its divisor is
/// not zero.
pub open spec fn d_step_fits(ann: int, x0: int, x1: int, d: int) -> bool {
    &&& fits(2 * x0)
    &&& fits(2 * x1)
    &&& fits(d * d / (2 * x0))
    &&& fits(d_prod(x0, x1, d))
    &&& fits(d_numer(ann, x0, x1, d))
    &&& 0 < d_denom(ann, x0, x1, d) <= u128::MAX
    &&& fits(d_next(ann, x0, x1, d))
}

/// Whether two successive values lie within one unit of each other.
pub open spec fn settled(a: int, b: int) -> bool {
    a - b <= 1 && b - a <= 1
}

/// The Newton iteration on `D` from `d`, with `steps` steps left: the first
/// value that lies within one unit of its predecessor.
pub open spec fn d_iterate(ann: int, x0: int, x1: int, d: int, steps: nat) -> Result<
    int,
    PoolError,
>
    decreases steps,
{
    if steps == 0 {
        Err(PoolError::ConvergenceFailure)
    } else if !d_step_fits(ann, x0, x1, d) {
        Err(PoolError::Overflow)
    } else {
        let next = d_next(ann, x0, x1, d);
        if settled(next, d) {
            Ok(next)
        } else {
            d_iterate(ann, x0, x1, next, (steps - 1) as nat)
        }
    }
}

/// The invariant `D` of two balances under the amplification `amp`.
///
/// An empty pool has the invariant zero. One zero balance beside a nonzero
/// one is an error, as is an amplification of zero.
pub open spec fn invariant_d(amp: int, x0: int, x1: int) -> Result<int, PoolError> {
    if amp <= 0 {
        Err(PoolError::IncorrectAmp)
    } else if x0 == 0 && x1 == 0 {
        Ok(0)
    } else if x0 == 0 || x1 == 0 {
        Err(PoolError::InsufficientFunds)
    } else if !fits(x0 + x1) {
        Err(PoolError::Overflow)
    } else {
        d_iterate(leverage(amp), x0, x1, x0 + x1, ITERATIONS as nat)
    }
}

/// Whether an executable result is the given mathematical one.
pub open spec fn same_result(r: Result<u128, PoolError>, m: Result<int, PoolError>) -> bool {
    match m {
        Ok(v) => r == Ok::<u128, PoolError>(v as u128) && fits(v),
        Err(e) => r == Err::<u128, PoolError>(e),
    }
}

fn d_step(ann: u128, x0: u128, x1: u128, d: u128) -> (r: Result<u128, PoolError>)
    requires
        ann >= 1,
        x0 >= 1,
        x1 >= 1,
        x0 + x1 <= u128::MAX,
    ensures
        d_step_fits(ann as int, x0 as int, x1 as int, d as int) ==> r == Ok::<u128, PoolError>(
            d_next(ann as int, x0 as int, x1 as int, d as int) as u128,
        ),
        !d_step_fits(ann as int, x0 as int, x1 as int, d as int) ==> r == Err::<u128, PoolError>(
            PoolError::Overflow,
        ),
{
    let s: u128 = x0 + x1;
    let two_x0: u128 = checked_mul(x0, 2)?;
    let two_x1: u128 = checked_mul(x1, 2)?;
    let p: u128 = mul_div(d, d, two_x0)?;
    let dp: u128 = mul_div(p, d, two_x1)?;
    assert(dp == d_prod(x0 as int, x1 as int, d as int));
    let ghost lev_sum: int = ann as int * (x0 as int + x1 as int);
    let ghost lev_d: int = (ann as int - 1) * d as int;
    proof {
        assert(lev_sum >= 0) by (nonlinear_arith)
            requires
                lev_sum == ann as int * (x0 as int + x1 as int),
                ann >= 1,
                x0 >= 1,
                x1 >= 1,
        ;
        assert(lev_d >= 0) by (nonlinear_arith)
            requires
                lev_d == (ann as int - 1) * d as int,
                ann >= 1,
                d >= 0,
        ;
        assert(d_numer(ann as int, x0 as int, x1 as int, d as int) == lev_sum + 2 * dp);
        assert(d_denom(ann as int, x0 as int, x1 as int, d as int) == lev_d + 3 * dp);
    }
    let a_s: u128 = checked_mul(ann, s)?;
    let dp2: u128 = checked_mul(dp, 2)?;
    let numer: u128 = checked_add(a_s, dp2)?;
    let a_d: u128 = checked_mul(ann - 1, d)?;
    let dp3: u128 = checked_mul(dp, 3)?;
    let denom: u128 = checked_add(a_d, dp3)?;
    if denom == 0 {
        return Err(PoolError::Overflow);
    }
    mul_div(numer, d, denom)
}

/// Computes the invariant `D` of two balances under the amplification `amp`.
///
/// The balances are taken at a common precision. The result is the first
/// Newton iterate that lies within one unit of its predecessor; when none
/// does within `ITERATIONS` steps the result is `ConvergenceFailure`, and
/// when a value of the computation does not fit it is `Overflow`.
pub fn compute_d(amp: u64, x0: u128, x1: u128) -> (r: Result<u128, PoolError>)
    ensures
        same_result(r, invariant_d(amp as int, x0 as int, x1 as int)),
{
    if amp == 0 {
        return Err(PoolError::IncorrectAmp);
    }
    if x0 == 0 && x1 == 0 {
        return Ok(0);
    }
    if x0 == 0 || x1 == 0 {
        return Err(PoolError::InsufficientFunds);
    }
    let s: u128 = checked_add(x0, x1)?;
    let ann: u128 = (amp as u128) * 2;
    let mut d: u128 = s;
    let mut i: u64 = 0;
    while i < ITERATIONS
        invariant
            i <= ITERATIONS,
            amp >= 1,
            ann == leverage(amp as int),
            x0 >= 1,
            x1 >= 1,
            s == x0 + x1,
            d_iterate(ann as int, x0 as int, x1 as int, d as int, (ITERATIONS - i) as nat)
                == d_iterate(ann as int, x0 as int, x1 as int, s as int, ITERATIONS as nat),
        decreases ITERATIONS - i,
    {
        let next: u128 = d_step(ann, x0, x1, d)?;
        let close: bool = if next >= d {
            next - d <= 1
        } else {
            d - next <= 1
        };
        if close {
            return Ok(next);
        }
        d = next;
        i = i + 1;
    }
    Err(PoolError::ConvergenceFailure)
}

/// The constant term `c = D^3 / (n^n * x * A * n^n)` of the equation for
/// the unknown balance, each division rounded down in turn.
pub open spec fn y_c(ann: int, x: int, d: int) -> int {
    (d * d / (2 * x)) * d / (2 * ann)
}

/// The linear term `b = x + D / (A * n^n)`.
pub open spec fn y_b(ann: int, x: int, d: int) -> int {
    x + d / ann
}

/// The divisor `2y + b - D` of the Newton step on the unknown balance.
pub open spec fn y_denom(ann: int, x: int, d: int, y: int) -> int {
    2 * y + y_b(ann, x, d) - d
}

/// The Newton step on the unknown balance, for `y^2 + (b - D) y = c`.
pub open spec fn y_next(ann: int, x: int, d: int, y: int) -> int {
    (y * y + y_c(ann, x, d)) / y_denom(ann, x, d, y)
}

/// Whether the two terms of the equation for the unknown balance fit.
pub open spec fn y_terms_fit(ann: int, x: int, d: int) -> bool {
    &&& fits(2 * x)
    &&& fits(d * d / (2 * x))
    &&& fits(y_c(ann, x, d))
    &&& fits(y_b(ann, x, d))
}

/// The Newton iteration on the unknown balance from `y`, with `steps`
/// steps left.
pub open spec fn y_iterate(ann: int, x: int, d: int, y: int, steps: nat) -> Result<int, PoolError>
    decreases steps,
{
    if steps == 0 {
        Err(PoolError::ConvergenceFailure)
    } else if !fits(2 * y + y_b(ann, x, d)) {
        Err(PoolError::Overflow)
    } else if y_denom(ann, x, d, y) <= 0 {
        Err(PoolError::Underflow)
    } else if !fits(y_next(ann, x, d, y)) {
        Err(PoolError::Overflow)
    } else {
        let next = y_next(ann, x, d, y);
        if settled(next, y) {
            Ok(next)
        } else {
            y_iterate(ann, x, d, next, (steps - 1) as nat)
        }
    }
}

/// The balance of the other asset at which the pool, holding `x` of the one
/// asset, has the invariant `d` under the amplification `amp`.
pub open spec fn balance_for_invariant(amp: int, x: int, d: int) -> Result<int, PoolError> {
    if amp <= 0 {
        Err(PoolError::IncorrectAmp)
    } else if x == 0 {
        Err(PoolError::InsufficientFunds)
    } else if !y_terms_fit(leverage(amp), x, d) {
        Err(PoolError::Overflow)
    } else {
        y_iterate(leverage(amp), x, d, d, ITERATIONS as nat)
    }
}

fn y_step(c: u128, b: u128, d: u128, y: u128) -> (r: Result<u128, PoolError>)
    ensures
        !fits(2 * y + b) ==> r == Err::<u128, PoolError>(PoolError::Overflow),
        fits(2 * y + b) && 2 * y + b - d <= 0 ==> r == Err::<u128, PoolError>(
            PoolError::Underflow,
        ),
        fits(2 * y + b) && 2 * y + b - d > 0 && !fits((y * y + c) / (2 * y + b - d)) ==> r == Err::<
            u128,
            PoolError,
        >(PoolError::Overflow),
        fits(2 * y + b) && 2 * y + b - d > 0 && fits((y * y + c) / (2 * y + b - d)) ==> r == Ok::<
            u128,
            PoolError,
        >(((y * y + c) / (2 * y + b - d)) as u128),
{
    let y2: u128 = checked_mul(y, 2)?;
    let sum: u128 = checked_add(y2, b)?;
    if sum <= d {
        return Err(PoolError::Underflow);
    }
    let denom: u128 = sum - d;
    proof {
        assert((y * y + c) / (denom as int) >= 0) by (nonlinear_arith)
            requires
                y >= 0,
                c >= 0,
                denom > 0,
        ;
    }
    match mul_add_div(y, y, c, denom) {
        Some(v) => Ok(v),
        None => Err(PoolError::Overflow),
    }
}

/// Computes the balance of the other asset at which the pool, holding `x`
/// of the one asset, has the invariant `d` under the amplification `amp`.
///
/// The iteration starts at `d` and ends at the first iterate that lies
/// within one unit of its predecessor, or with `ConvergenceFailure` after
/// `ITERATIONS` steps.
pub fn compute_y(amp: u64, x: u128, d: u128) -> (r: Result<u128, PoolError>)
    ensures
        same_result(r, balance_for_invariant(amp as int, x as int, d as int)),
{
    if amp == 0 {
        return Err(PoolError::IncorrectAmp);
    }
    if x == 0 {
        return Err(PoolError::InsufficientFunds);
    }
    let ann: u128 = (amp as u128) * 2;
    let two_x: u128 = checked_mul(x, 2)?;
    let p: u128 = mul_div(d, d, two_x)?;
    let two_ann: u128 = ann * 2;
    let c: u128 = mul_div(p, d, two_ann)?;
    assert(c == y_c(ann as int, x as int, d as int));
    let b: u128 = checked_add(x, d / ann)?;
    assert(b == y_b(ann as int, x as int, d as int));
    let mut y: u128 = d;
    let mut i: u64 = 0;
    while i < ITERATIONS
        invariant
            i <= ITERATIONS,
            amp >= 1,
            ann == leverage(amp as int),
            x >= 1,
            y_terms_fit(ann as int, x as int, d as int),
            c == y_c(ann as int, x as int, d as int),
            b == y_b(ann as int, x as int, d as int),
            y_iterate(ann as int, x as int, d as int, y as int, (ITERATIONS - i) as nat)
                == y_iterate(ann as int, x as int, d as int, d as int, ITERATIONS as nat),
        decreases ITERATIONS - i,
    {
        let next: u128 = y_step(c, b, d, y)?;
        let close: bool = if next >= y {
            next - y <= 1
        } else {
            y - next <= 1
        };
        if close {
            return Ok(next);
        }
        y = next;
        i = i + 1;
    }
    Err(PoolError::ConvergenceFailure)
}

/// What a swap of `offer_amount` returns before fees: the ask balance less
/// the balance that keeps the invariant once the offer is added. A pool
/// whose invariant is zero holds nothing to swap against.
pub open spec fn ask_amount(offer_pool: int, ask_pool: int, offer_amount: int, amp: int) -> Result<
    int,
    PoolError,
> {
    match invariant_d(amp, offer_pool, ask_pool) {
        Err(e) => Err(e),
        Ok(d) => if d == 0 {
            Err(PoolError::InsufficientFunds)
        } else if !fits(offer_pool + offer_amount) {
            Err(PoolError::Overflow)
        } else {
            match balance_for_invariant(amp, offer_pool + offer_amount, d) {
                Err(e) => Err(e),
                Ok(y) => if y > ask_pool {
                    Err(PoolError::Underflow)
                } else {
                    Ok(ask_pool - y)
                },
            }
        },
    }
}

/// Computes what a swap of `offer_amount` returns before fees.
///
/// The invariant is computed on the balances before the swap; the new ask
/// balance is the one that keeps it once the offer is added to the offer
/// balance. All amounts are taken at a common precision. An empty pool is
/// refused with `InsufficientFunds`, as is a pool that holds one asset only.
pub fn calc_ask_amount(offer_pool: u128, ask_pool: u128, offer_amount: u128, amp: u64) -> (r:
    Result<u128, PoolError>)
    ensures
        same_result(
            r,
            ask_amount(offer_pool as int, ask_pool as int, offer_amount as int, amp as int),
        ),
{
    let d: u128 = compute_d(amp, offer_pool, ask_pool)?;
    if d == 0 {
        return Err(PoolError::InsufficientFunds);
    }
    let new_offer_pool: u128 = checked_add(offer_pool, offer_amount)?;
    let y: u128 = compute_y(amp, new_offer_pool, d)?;
    checked_sub(ask_pool, y)
}

/// A balance that the iteration returns fits.
pub proof fn lemma_balance_fits(ann: int, x: int, d: int, y: int, steps: nat)
    ensures
        y_iterate(ann, x, d, y, steps) matches Ok(r) ==> fits(r),
    decreases steps,
{
    if steps > 0 && y_iterate(ann, x, d, y, steps) is Ok {
        let next = y_next(ann, x, d, y);
        if !settled(next, y) {
            lemma_balance_fits(ann, x, d, next, (steps - 1) as nat);
        }
    }
}

/// What a swap returns before fees is no more than the ask balance.
pub proof fn lemma_ask_amount_bounds(offer_pool: int, ask_pool: int, offer_amount: int, amp: int)
    ensures
        ask_amount(offer_pool, ask_pool, offer_amount, amp) matches Ok(r) ==> 0 <= r <= ask_pool,
{
    if ask_amount(offer_pool, ask_pool, offer_amount, amp) is Ok {
        let d = invariant_d(amp, offer_pool, ask_pool)->Ok_0;
        lemma_balance_fits(leverage(amp), offer_pool + offer_amount, d, d, ITERATIONS as nat);
    }
}

} // verus!
