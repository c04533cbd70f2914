use crate::error::PoolError;
use crate::math::{lemma_pow10_positive, pow10, ratio_floor, Decimal, ITERATIONS};
use crate::math::{MAX_AMP, MAX_AMP_CHANGE, MIN_AMP_CHANGING_TIME};
use crate::pool::{
    lemma_refund_bounds, price_increment, Pool, Side, StablePoolUpdateParams,
};
use crate::solver::{
    ask_amount, d_denom, d_iterate, d_next, d_numer, d_prod, d_step_fits, fits, invariant_d,
    leverage, settled, y_iterate, y_next,
};
use vstd::arithmetic::div_mod::{
    lemma_div_denominator, lemma_div_is_ordered, lemma_div_multiples_vanish,
    lemma_fundamental_div_mod, lemma_fundamental_div_mod_converse,
};
use vstd::prelude::*;

verus! {

/// The invariant of a balanced pool is the sum of its balances, whatever
/// the amplification.
pub proof fn lemma_balanced_invariant(amp: int, x: int)
    requires
        amp >= 1,
        x >= 1,
        (leverage(amp) + 2) * (2 * x) <= u128::MAX,
    ensures
        invariant_d(amp, x, x) == Ok::<int, PoolError>(2 * x),
{
    let ann = leverage(amp);
    let d = 2 * x;
    assert(d <= (ann + 2) * d) by (nonlinear_arith)
        requires
            ann >= 2,
            d >= 0,
    ;
    lemma_div_multiples_vanish(d, d);
    assert(d * d / (2 * x) == d);
    assert(d_prod(x, x, d) == d);
    assert(ann * (x + x) == ann * d);
    assert(d_numer(ann, x, x, d) == ann * d + 2 * d);
    assert((ann - 1) * d + 3 * d == ann * d + 2 * d) by (nonlinear_arith);
    assert(d_denom(ann, x, x, d) == ann * d + 2 * d);
    assert(ann * d + 2 * d == (ann + 2) * d) by (nonlinear_arith);
    let n = (ann + 2) * d;
    assert(n >= 1) by (nonlinear_arith)
        requires
            n == (ann + 2) * d,
            ann >= 2,
            d >= 2,
    ;
    lemma_div_multiples_vanish(d, n);
    assert(d_next(ann, x, x, d) == d);
    assert(d_step_fits(ann, x, x, d));
    assert(settled(d, d));
    assert(d_iterate(ann, x, x, d, ITERATIONS as nat) == Ok::<int, PoolError>(d));
}

/// An invariant that the solver returns is a Newton step away from a value
/// within one unit of it.
pub proof fn lemma_invariant_settled(ann: int, x0: int, x1: int, d: int, steps: nat)
    ensures
        d_iterate(ann, x0, x1, d, steps) matches Ok(r) ==> exists|prev: int|
            d_step_fits(ann, x0, x1, prev) && r == #[trigger] d_next(ann, x0, x1, prev) && settled(
                r,
                prev,
            ),
    decreases steps,
{
    if steps > 0 && d_step_fits(ann, x0, x1, d) {
        let next = d_next(ann, x0, x1, d);
        if !settled(next, d) {
            lemma_invariant_settled(ann, x0, x1, next, (steps - 1) as nat);
        }
    }
}

/// Whether the roundings of two increments of one price lose less than one
/// unit between them.
pub open spec fn rounds_apart(price: int, e1: int, e2: int, unit: int) -> bool {
    (price * e1) % unit + (price * e2) % unit < unit
}

/// Increments of one price add up over adjoining spans of time, as long as
/// their roundings lose less than one unit between them.
pub proof fn lemma_increment_additive(price: int, e1: int, e2: int, unit: int)
    requires
        price >= 0,
        e1 >= 0,
        e2 >= 0,
        unit > 0,
        rounds_apart(price, e1, e2, unit),
    ensures
        price_increment(price, e1 + e2, unit) == price_increment(price, e1, unit)
            + price_increment(price, e2, unit),
{
    let a = price * e1;
    let b = price * e2;
    assert(price * (e1 + e2) == a + b) by (nonlinear_arith)
        requires
            a == price * e1,
            b == price * e2,
    ;
    lemma_fundamental_div_mod(a, unit);
    lemma_fundamental_div_mod(b, unit);
    let q = a / unit + b / unit;
    let r = a % unit + b % unit;
    assert(a + b == unit * q + r) by (nonlinear_arith)
        requires
            a == unit * (a / unit) + a % unit,
            b == unit * (b / unit) + b % unit,
            q == a / unit + b / unit,
            r == a % unit + b % unit,
    ;
    assert(0 <= a % unit && 0 <= b % unit) by (nonlinear_arith)
        requires
            unit > 0,
    ;
    lemma_fundamental_div_mod_converse(a + b, unit, q, r);
}

/// Between two price queries on an idle pool, `dt` seconds apart, each
/// cumulative price grows by exactly the price at the balances held times
/// `dt`.
///
/// The pool is idle: its balances, its accumulators and its amplification
/// are the same at both queries. The first query is made at the pool's last
/// update, or the roundings of the two spans lose less than one unit between
/// them.
pub proof fn lemma_twap_additivity(pool: Pool, t: u64, dt: u64)
    requires
        pool.wf(),
        pool.share_supply > 0,
        pool.last_update <= t,
        t + dt <= u64::MAX,
        pool.amp.amp_at(t as int) == pool.amp.amp_at(t + dt),
        pool.projected(t) is Ok,
        pool.projected((t + dt) as u64) is Ok,
        pool.price(Side::First, pool.amp.amp_at(t as int)) matches Ok(price0) && (t
            == pool.last_update || rounds_apart(price0, t - pool.last_update, dt as int, pool.unit())),
        pool.price(Side::Second, pool.amp.amp_at(t as int)) matches Ok(price1) && (t
            == pool.last_update || rounds_apart(price1, t - pool.last_update, dt as int, pool.unit())),
    ensures
        pool.projected((t + dt) as u64)->Ok_0.price0_cumulative - pool.projected(
            t,
        )->Ok_0.price0_cumulative == price_increment(
            pool.price(Side::First, pool.amp.amp_at(t as int))->Ok_0,
            dt as int,
            pool.unit(),
        ),
        pool.projected((t + dt) as u64)->Ok_0.price1_cumulative - pool.projected(
            t,
        )->Ok_0.price1_cumulative == price_increment(
            pool.price(Side::Second, pool.amp.amp_at(t as int))->Ok_0,
            dt as int,
            pool.unit(),
        ),
{
    let amp = pool.amp.amp_at(t as int);
    let price0 = pool.price(Side::First, amp)->Ok_0;
    let price1 = pool.price(Side::Second, amp)->Ok_0;
    let u = pool.unit();
    lemma_pow10_positive(pool.common_precision() as nat);
    lemma_price_nonnegative(pool, Side::First, amp);
    lemma_price_nonnegative(pool, Side::Second, amp);
    assert(price_increment(price0, 0, u) == 0 && price_increment(price1, 0, u) == 0) by {
        assert(price0 * 0 == 0 && price1 * 0 == 0) by (nonlinear_arith);
    }
    if dt == 0 {
    } else if t == pool.last_update {
    } else {
        lemma_increment_additive(price0, t - pool.last_update, dt as int, u);
        lemma_increment_additive(price1, t - pool.last_update, dt as int, u);
    }
}

/// A price that the solver returns is not negative.
pub proof fn lemma_price_nonnegative(pool: Pool, side: Side, amp: int)
    ensures
        pool.price(side, amp) matches Ok(price) ==> price >= 0,
{
}

/// A deposit followed at once by the withdrawal of the shares it was given
/// returns the two assets in the ratio in which they were supplied, each
/// rounded down.
///
/// The amounts paid out are the balances after the deposit, each times the
/// same fraction, the shares given back over the share supply, and rounded
/// down; and those balances stand in the ratio of the deposit. The deposit
/// is made in the ratio of the pool, which every deposit into an empty pool
/// is. Into an empty pool that burns no shares, the amounts paid out are the
/// amounts supplied.
pub proof fn lemma_round_trip_ratio(
    pool: Pool,
    amount0: u128,
    amount1: u128,
    tolerance: Option<Decimal>,
    min_share: Option<u128>,
    now: u64,
)
    requires
        pool.wf(),
        pool.balance0 * amount1 == pool.balance1 * amount0,
        pool.provided(amount0, amount1, tolerance, min_share, now) is Ok,
        pool.provided(amount0, amount1, tolerance, min_share, now)->Ok_0.0.withdrawn(
            pool.provided(amount0, amount1, tolerance, min_share, now)->Ok_0.1,
            now,
        ) is Ok,
    ensures
        ({
            let after = pool.provided(amount0, amount1, tolerance, min_share, now)->Ok_0.0;
            let share = pool.provided(amount0, amount1, tolerance, min_share, now)->Ok_0.1;
            let back = after.withdrawn(share, now)->Ok_0;
            &&& back.1 == ratio_floor(
                after.balance0 as int,
                share as int,
                after.share_supply as int,
            )
            &&& back.2 == ratio_floor(
                after.balance1 as int,
                share as int,
                after.share_supply as int,
            )
            &&& after.balance0 * amount1 == after.balance1 * amount0
            &&& back.1 * amount1 <= back.2 * amount0 + amount0
            &&& back.2 * amount0 <= back.1 * amount1 + amount1
            &&& pool.share_supply == 0 && pool.balance0 == 0 ==> back.1 <= amount0
            &&& pool.share_supply == 0 && pool.balance1 == 0 ==> back.2 <= amount1
            &&& share * pool.balance0 <= pool.share_supply * amount0 ==> back.1 <= amount0
            &&& share * pool.balance1 <= pool.share_supply * amount1 ==> back.2 <= amount1
            &&& pool.balance0 == 0 && pool.balance1 == 0 && pool.share_supply == 0
                && pool.min_liquidity == 0 ==> back.1 == amount0 && back.2 == amount1
        }),
{
    let after = pool.provided(amount0, amount1, tolerance, min_share, now)->Ok_0.0;
    let share = pool.provided(amount0, amount1, tolerance, min_share, now)->Ok_0.1;
    let back = after.withdrawn(share, now)->Ok_0;
    let b0 = pool.balance0 as int;
    let b1 = pool.balance1 as int;
    let a0 = amount0 as int;
    let a1 = amount1 as int;
    assert((b0 + a0) * a1 == (b1 + a1) * a0) by (nonlinear_arith)
        requires
            b0 * a1 == b1 * a0,
    ;
    lemma_refund_bounds(after.balance0, share, after.share_supply);
    lemma_refund_bounds(after.balance1, share, after.share_supply);
    lemma_floors_in_ratio(
        after.balance0 as int,
        after.balance1 as int,
        a0,
        a1,
        share as int,
        after.share_supply as int,
    );
    if pool.share_supply > 0 {
        if share * b0 <= pool.share_supply * a0 {
            lemma_refund_at_most_deposit(b0, a0, pool.share_supply as int, share as int);
        }
        if share * b1 <= pool.share_supply * a1 {
            lemma_refund_at_most_deposit(b1, a1, pool.share_supply as int, share as int);
        }
    } else {
        // the shares of a first deposit are what it created, less the burn
        let s = pool.share_supply as int;
        let m = share as int;
        assert(s * a0 == 0 && s * a1 == 0) by (nonlinear_arith)
            requires
                s == 0,
        ;
        assert(b0 == 0 ==> m * b0 == 0) by (nonlinear_arith);
        assert(b1 == 0 ==> m * b1 == 0) by (nonlinear_arith);
        lemma_first_shares_return(b0, a0, m, after.share_supply as int);
        lemma_first_shares_return(b1, a1, m, after.share_supply as int);
    }
}

/// Of a balance to which a deposit was added, a part of the shares returns
/// no more than the deposit where the shares given are no more than the
/// part that the deposit is of the whole.
pub proof fn lemma_first_shares_return(balance: int, amount: int, share: int, supply: int)
    requires
        balance >= 0,
        amount >= 0,
        0 <= share <= supply,
        supply > 0,
    ensures
        share * balance <= 0 ==> ratio_floor(balance + amount, share, supply) <= amount,
{
    if share * balance <= 0 {
        let y = (balance + amount) * share;
        assert(y <= amount * supply) by (nonlinear_arith)
            requires
                y == (balance + amount) * share,
                share * balance <= 0,
                balance >= 0,
                amount >= 0,
                0 <= share <= supply,
        ;
        lemma_div_is_ordered(y, amount * supply, supply);
        lemma_div_multiples_vanish(amount, supply);
        assert(amount * supply == supply * amount) by (nonlinear_arith);
    }
}

/// Two amounts that stand in the ratio of `a0` to `a1`, each taken times
/// the same fraction `s / t` and rounded down, still stand in that ratio to
/// within the rounding: the one times `a1` exceeds the other times `a0` by
/// no more than `a0`, and the other way round by no more than `a1`.
pub proof fn lemma_floors_in_ratio(x0: int, x1: int, a0: int, a1: int, s: int, t: int)
    requires
        x0 >= 0,
        x1 >= 0,
        a0 >= 0,
        a1 >= 0,
        s >= 0,
        t > 0,
        x0 * a1 == x1 * a0,
    ensures
        ratio_floor(x0, s, t) * a1 <= ratio_floor(x1, s, t) * a0 + a0,
        ratio_floor(x1, s, t) * a0 <= ratio_floor(x0, s, t) * a1 + a1,
{
    let y0 = x0 * s;
    let y1 = x1 * s;
    let q0 = y0 / t;
    let q1 = y1 / t;
    lemma_fundamental_div_mod(y0, t);
    lemma_fundamental_div_mod(y1, t);
    assert(0 <= y0 % t < t && 0 <= y1 % t < t) by (nonlinear_arith)
        requires
            t > 0,
    ;
    assert(y0 * a1 == y1 * a0) by (nonlinear_arith)
        requires
            y0 == x0 * s,
            y1 == x1 * s,
            x0 * a1 == x1 * a0,
    ;
    // q0 * t <= y0 and y1 < (q1 + 1) * t, and likewise the other way round
    assert(q0 * a1 <= q1 * a0 + a0) by (nonlinear_arith)
        requires
            y0 == t * q0 + y0 % t,
            y1 == t * q1 + y1 % t,
            0 <= y0 % t < t,
            0 <= y1 % t < t,
            y0 * a1 == y1 * a0,
            a0 >= 0,
            a1 >= 0,
            t > 0,
    {
        assert(t * q0 * a1 <= y0 * a1);
        assert(y1 * a0 <= (t * q1 + t) * a0);
        assert(t * (q0 * a1) <= t * (q1 * a0 + a0));
    }
    assert(q1 * a0 <= q0 * a1 + a1) by (nonlinear_arith)
        requires
            y0 == t * q0 + y0 % t,
            y1 == t * q1 + y1 % t,
            0 <= y0 % t < t,
            0 <= y1 % t < t,
            y0 * a1 == y1 * a0,
            a0 >= 0,
            a1 >= 0,
            t > 0,
    {
        assert(t * q1 * a0 <= y1 * a0);
        assert(y0 * a1 <= (t * q0 + t) * a1);
        assert(t * (q1 * a0) <= t * (q0 * a1 + a1));
    }
}

/// Shares given for no more than the part that a deposit is of a balance
/// return no more than the deposit when they are given back.
pub proof fn lemma_refund_at_most_deposit(balance: int, amount: int, supply: int, share: int)
    requires
        balance >= 0,
        amount >= 0,
        supply >= 0,
        share >= 0,
        supply + share > 0,
        share * balance <= supply * amount,
    ensures
        ratio_floor(balance + amount, share, supply + share) <= amount,
{
    let t = supply + share;
    let y = (balance + amount) * share;
    assert(y <= amount * t) by (nonlinear_arith)
        requires
            y == (balance + amount) * share,
            t == supply + share,
            share * balance <= supply * amount,
    ;
    lemma_div_is_ordered(y, amount * t, t);
    lemma_div_multiples_vanish(amount, t);
    assert(amount * t == t * amount) by (nonlinear_arith);
}

/// Shares given for more than the part that a deposit is of a balance, less
/// one share, fall short of the deposit by less than the worth of one share
/// and one unit when they are given back.
pub proof fn lemma_refund_shortfall(balance: int, amount: int, supply: int, share: int)
    requires
        balance >= 0,
        amount >= 0,
        supply >= 0,
        share >= 0,
        supply + share > 0,
        supply * amount < (share + 1) * balance,
    ensures
        (amount - ratio_floor(balance + amount, share, supply + share)) * (supply + share)
            < balance + supply + share,
{
    let t = supply + share;
    let y = (balance + amount) * share;
    assert(y > amount * t - balance) by (nonlinear_arith)
        requires
            y == (balance + amount) * share,
            t == supply + share,
            supply * amount < (share + 1) * balance,
    ;
    lemma_fundamental_div_mod(y, t);
    assert(0 <= y % t < t) by (nonlinear_arith)
        requires
            t > 0,
    ;
    let q = y / t;
    assert((amount - q) * t < balance + t) by (nonlinear_arith)
        requires
            y == t * q + y % t,
            y % t < t,
            y > amount * t - balance,
            t > 0,
    ;
}

/// The bounds on what a holder gets back who was given shares in
/// proportion to a deposit: with `share` the part of the supply `supply`
/// that the deposit `amount` is of the balance `balance`, rounded down,
/// giving the shares back returns no more than the deposit, and falls short
/// of it by less than the worth of one share and one unit.
pub proof fn lemma_proportional_refund(balance: int, amount: int, supply: int, share: int)
    requires
        balance > 0,
        amount >= 0,
        supply > 0,
        share == ratio_floor(supply, amount, balance),
    ensures
        ratio_floor(balance + amount, share, supply + share) <= amount,
        (amount - ratio_floor(balance + amount, share, supply + share)) * (supply + share)
            < balance + supply + share,
{
    let x = supply * amount;
    lemma_fundamental_div_mod(x, balance);
    assert(0 <= x % balance < balance) by (nonlinear_arith)
        requires
            balance > 0,
    ;
    assert(share >= 0) by (nonlinear_arith)
        requires
            share == x / balance,
            x == supply * amount,
            supply > 0,
            amount >= 0,
            balance > 0,
    ;
    assert(share * balance <= x && x < (share + 1) * balance) by (nonlinear_arith)
        requires
            x == balance * (x / balance) + x % balance,
            share == x / balance,
            0 <= x % balance < balance,
    ;
    lemma_refund_at_most_deposit(balance, amount, supply, share);
    lemma_refund_shortfall(balance, amount, supply, share);
}

/// A deposit followed at once by the withdrawal of the shares it was given
/// leaves the share supply as it was, but for the shares that a first
/// deposit burns, and brings each balance back to where it was within the
/// worth of one share and one unit.
///
/// A balance does not end below where it was where the shares given were no
/// more than the part of the supply that the deposit is of that balance;
/// it ends above by less than the worth of one share and one unit where they
/// were more than that part less one share. A deposit into an empty pool
/// that burns no shares brings both balances back to zero exactly.
pub proof fn lemma_share_conservation(
    pool: Pool,
    amount0: u128,
    amount1: u128,
    tolerance: Option<Decimal>,
    min_share: Option<u128>,
    now: u64,
)
    requires
        pool.wf(),
        pool.provided(amount0, amount1, tolerance, min_share, now) is Ok,
        pool.provided(amount0, amount1, tolerance, min_share, now)->Ok_0.0.withdrawn(
            pool.provided(amount0, amount1, tolerance, min_share, now)->Ok_0.1,
            now,
        ) is Ok,
    ensures
        ({
            let after = pool.provided(amount0, amount1, tolerance, min_share, now)->Ok_0.0;
            let share = pool.provided(amount0, amount1, tolerance, min_share, now)->Ok_0.1;
            let end = after.withdrawn(share, now)->Ok_0.0;
            &&& pool.share_supply > 0 ==> end.share_supply == pool.share_supply
            &&& pool.share_supply == 0 ==> end.share_supply == pool.min_liquidity
            &&& pool.share_supply > 0 && share * pool.balance0 <= pool.share_supply * amount0
                ==> pool.balance0 <= end.balance0
            &&& pool.share_supply > 0 && share * pool.balance1 <= pool.share_supply * amount1
                ==> pool.balance1 <= end.balance1
            &&& pool.share_supply > 0 && pool.share_supply * amount0 < (share + 1) * pool.balance0
                ==> (end.balance0 - pool.balance0) * after.share_supply < pool.balance0
                + after.share_supply
            &&& pool.share_supply > 0 && pool.share_supply * amount1 < (share + 1) * pool.balance1
                ==> (end.balance1 - pool.balance1) * after.share_supply < pool.balance1
                + after.share_supply
            &&& pool.balance0 == 0 && pool.balance1 == 0 && pool.share_supply == 0
                && pool.min_liquidity == 0 ==> end.balance0 == 0 && end.balance1 == 0
        }),
{
    let after = pool.provided(amount0, amount1, tolerance, min_share, now)->Ok_0.0;
    let share = pool.provided(amount0, amount1, tolerance, min_share, now)->Ok_0.1;
    let s = pool.share_supply as int;
    lemma_refund_bounds(after.balance0, share, after.share_supply);
    lemma_refund_bounds(after.balance1, share, after.share_supply);
    if pool.share_supply > 0 {
        if share * pool.balance0 <= s * amount0 {
            lemma_refund_at_most_deposit(pool.balance0 as int, amount0 as int, s, share as int);
        }
        if share * pool.balance1 <= s * amount1 {
            lemma_refund_at_most_deposit(pool.balance1 as int, amount1 as int, s, share as int);
        }
        if s * amount0 < (share + 1) * pool.balance0 {
            lemma_refund_shortfall(pool.balance0 as int, amount0 as int, s, share as int);
        }
        if s * amount1 < (share + 1) * pool.balance1 {
            lemma_refund_shortfall(pool.balance1 as int, amount1 as int, s, share as int);
        }
    }
}

/// One step of a run of deposits and withdrawals.
pub enum Step {
    Provide {
        amount0: u128,
        amount1: u128,
        tolerance: Option<Decimal>,
        min_share: Option<u128>,
        now: u64,
    },
    Withdraw { share_amount: u128, now: u64 },
}

/// What a run of deposits and withdrawals comes to.
pub struct Run {
    /// The pool after the run.
    pub pool: Pool,
    /// The shares handed to the depositors.
    pub minted: int,
    /// The shares burned at deposits into a pool without shares.
    pub burned: int,
    /// The shares given back.
    pub given_back: int,
}

/// What a run of deposits and withdrawals comes to, each step made on the
/// pool as the steps before left it; `None` where a step is refused.
pub open spec fn run(pool: Pool, steps: Seq<Step>) -> Option<Run>
    decreases steps.len(),
{
    if steps.len() == 0 {
        Some(Run { pool, minted: 0, burned: 0, given_back: 0 })
    } else {
        match run(pool, steps.drop_last()) {
            None => None,
            Some(r) => match steps.last() {
                Step::Provide { amount0, amount1, tolerance, min_share, now } => {
                    match r.pool.provided(amount0, amount1, tolerance, min_share, now) {
                        Err(_) => None,
                        Ok((after, share)) => Some(
                            Run {
                                pool: after,
                                minted: r.minted + share,
                                burned: r.burned + (if r.pool.share_supply == 0 {
                                    r.pool.min_liquidity as int
                                } else {
                                    0
                                }),
                                given_back: r.given_back,
                            },
                        ),
                    }
                },
                Step::Withdraw { share_amount, now } => {
                    match r.pool.withdrawn(share_amount, now) {
                        Err(_) => None,
                        Ok((after, _, _)) => Some(
                            Run {
                                pool: after,
                                minted: r.minted,
                                burned: r.burned,
                                given_back: r.given_back + share_amount,
                            },
                        ),
                    }
                },
            },
        }
    }
}

/// Over any run of deposits and withdrawals no share is lost and none is
/// made from nothing: the share supply grows by exactly the shares created
/// at the deposits and falls by exactly the shares given back. A pool that
/// has shares burns none: it keeps the burned shares, or has none to burn.
/// So a run which gives back as many shares as it handed out leaves the
/// share supply as it was.
pub proof fn lemma_supply_accounting(pool: Pool, steps: Seq<Step>)
    requires
        pool.wf(),
    ensures
        run(pool, steps) matches Some(r) ==> r.pool.share_supply == pool.share_supply + r.minted
            + r.burned - r.given_back && r.pool.min_liquidity == pool.min_liquidity && (
        r.pool.share_supply == 0 || r.pool.share_supply >= r.pool.min_liquidity) && (
        pool.share_supply > 0 ==> r.burned == 0) && (pool.share_supply > 0 && r.minted
            == r.given_back ==> r.pool.share_supply == pool.share_supply),
    decreases steps.len(),
{
    if steps.len() > 0 && run(pool, steps) is Some {
        lemma_supply_accounting(pool, steps.drop_last());
    }
}

/// In a pool of two assets of one precision that holds as much of the one as
/// of the other, a deposit of equal amounts is given shares in proportion to
/// it: `share_supply * amount / balance`, rounded down.
pub proof fn lemma_balanced_deposit_shares(pool: Pool, amount: u128, amp: int)
    requires
        pool.wf(),
        pool.precision0 == pool.precision1,
        pool.balance0 == pool.balance1,
        pool.balance0 > 0,
        pool.share_supply > 0,
        amp >= 1,
        (leverage(amp) + 2) * (2 * (pool.balance0 + amount)) <= u128::MAX,
        fits(ratio_floor(pool.share_supply as int, amount as int, pool.balance0 as int)),
    ensures
        pool.minted(amount, amount, amp) == Ok::<(int, int), PoolError>(
            (
                ratio_floor(pool.share_supply as int, amount as int, pool.balance0 as int),
                ratio_floor(pool.share_supply as int, amount as int, pool.balance0 as int),
            ),
        ),
{
    let b = pool.balance0 as int;
    let a = amount as int;
    let s = pool.share_supply as int;
    let lev = leverage(amp);
    assert(pow10(0) == 1);
    assert(pool.normalized(Side::First, b) == b) by {
        assert(b * 1 == b);
    }
    assert(pool.normalized(Side::Second, b) == b) by {
        assert(b * 1 == b);
    }
    assert(pool.normalized(Side::First, b + a) == b + a) by {
        assert((b + a) * 1 == b + a);
    }
    assert(pool.normalized(Side::Second, b + a) == b + a) by {
        assert((b + a) * 1 == b + a);
    }
    assert((lev + 2) * (2 * b) <= (lev + 2) * (2 * (b + a))) by (nonlinear_arith)
        requires
            lev >= 2,
            a >= 0,
            b >= 0,
    ;
    assert(2 * (b + a) <= (lev + 2) * (2 * (b + a))) by (nonlinear_arith)
        requires
            lev >= 2,
            a >= 0,
            b >= 0,
    ;
    lemma_balanced_invariant(amp, b);
    lemma_balanced_invariant(amp, b + a);
    let x = s * a;
    assert(s * (2 * (b + a) - 2 * b) == 2 * x) by (nonlinear_arith)
        requires
            x == s * a,
    ;
    assert(x >= 0) by (nonlinear_arith)
        requires
            x == s * a,
            s >= 0,
            a >= 0,
    ;
    lemma_div_denominator(2 * x, 2, b);
    lemma_div_multiples_vanish(x, 2);
    assert(2 * x / (2 * b) == x / b);
}

/// A balance that the solver returns is a Newton step away from a value
/// within one unit of it.
pub proof fn lemma_balance_settled(ann: int, x: int, d: int, y: int, steps: nat)
    ensures
        y_iterate(ann, x, d, y, steps) matches Ok(r) ==> exists|prev: int|
            r == #[trigger] y_next(ann, x, d, prev) && settled(r, prev),
    decreases steps,
{
    if steps > 0 && y_iterate(ann, x, d, y, steps) is Ok {
        let next = y_next(ann, x, d, y);
        if !settled(next, y) {
            lemma_balance_settled(ann, x, d, next, (steps - 1) as nat);
        }
    }
}

/// A swap leaves the pool on the curve of the invariant it had: the ask
/// balance after the swap settles the equation of that invariant at the
/// offer balance after the swap, being a Newton step on it away from a
/// value within one unit of itself.
pub proof fn lemma_swap_stays_on_curve(offer_pool: int, ask_pool: int, offer_amount: int, amp: int)
    ensures
        ask_amount(offer_pool, ask_pool, offer_amount, amp) matches Ok(r) ==> invariant_d(
            amp,
            offer_pool,
            ask_pool,
        ) is Ok && exists|prev: int|
            ask_pool - r == #[trigger] y_next(
                leverage(amp),
                offer_pool + offer_amount,
                invariant_d(amp, offer_pool, ask_pool)->Ok_0,
                prev,
            ) && settled(ask_pool - r, prev),
{
    if ask_amount(offer_pool, ask_pool, offer_amount, amp) is Ok {
        let d = invariant_d(amp, offer_pool, ask_pool)->Ok_0;
        lemma_balance_settled(
            leverage(amp),
            offer_pool + offer_amount,
            d,
            d,
            ITERATIONS as nat,
        );
    }
}

/// The cumulative prices never fall, and the time of the last update never
/// goes back.
pub proof fn lemma_accumulators_monotonic(pool: Pool, now: u64)
    requires
        pool.wf(),
    ensures
        pool.projected(now) matches Ok(a) ==> a.price0_cumulative >= pool.price0_cumulative
            && a.price1_cumulative >= pool.price1_cumulative && a.last_update >= pool.last_update
            && a.last_update >= now,
{
    if pool.projected(now) is Ok && now > pool.last_update && pool.share_supply > 0 {
        let amp = pool.amp.amp_at(now as int);
        let price0 = pool.price(Side::First, amp)->Ok_0;
        let price1 = pool.price(Side::Second, amp)->Ok_0;
        let u = pool.unit();
        let e = now - pool.last_update;
        lemma_pow10_positive(pool.common_precision() as nat);
        lemma_price_nonnegative(pool, Side::First, amp);
        lemma_price_nonnegative(pool, Side::Second, amp);
        assert(price_increment(price0, e, u) >= 0) by (nonlinear_arith)
            requires
                price0 >= 0,
                e >= 0,
                u >= 1,
        ;
        assert(price_increment(price1, e, u) >= 0) by (nonlinear_arith)
            requires
                price1 >= 0,
                e >= 0,
                u >= 1,
        ;
    }
}

/// A ramp asked of a pool is refused, and the pool stays as it was,
/// whenever its target is above the ceiling, whenever it changes the
/// amplification in force by more than the allowed factor, and whenever it
/// is asked for sooner than the minimum time after the start of the last
/// ramp; whatever the time at which it is to end. Where the owner asks and
/// the prices can be brought up to date, the refusal is the one of the
/// bound broken first, in this order.
pub proof fn lemma_update_config_bounds(
    pool: Pool,
    sender: Seq<char>,
    owner: Seq<char>,
    next_amp: u64,
    next_amp_time: u64,
    now: u64,
)
    requires
        pool.wf(),
    ensures
        ({
            let asked = StablePoolUpdateParams::StartChangingAmp { next_amp, next_amp_time };
            let current = pool.amp.amp_at(now as int);
            let granted = sender == owner && pool.projected(now) is Ok;
            &&& next_amp == 0 || next_amp > MAX_AMP ==> pool.amp_changed(sender, owner, asked, now)
                is Err
            &&& next_amp > current * MAX_AMP_CHANGE || next_amp * MAX_AMP_CHANGE < current
                ==> pool.amp_changed(sender, owner, asked, now) is Err
            &&& now < pool.amp.init_amp_time + MIN_AMP_CHANGING_TIME ==> pool.amp_changed(
                sender,
                owner,
                asked,
                now,
            ) is Err
            &&& granted && (next_amp == 0 || next_amp > MAX_AMP) ==> pool.amp_changed(
                sender,
                owner,
                asked,
                now,
            ) == Err::<Pool, PoolError>(PoolError::IncorrectAmp)
            &&& granted && 0 < next_amp <= MAX_AMP && (next_amp > current * MAX_AMP_CHANGE
                || next_amp * MAX_AMP_CHANGE < current) ==> pool.amp_changed(
                sender,
                owner,
                asked,
                now,
            ) == Err::<Pool, PoolError>(PoolError::MaxAmpChangeAssertion)
            &&& granted && 0 < next_amp <= MAX_AMP && next_amp <= current * MAX_AMP_CHANGE
                && next_amp * MAX_AMP_CHANGE >= current && now < pool.amp.init_amp_time
                + MIN_AMP_CHANGING_TIME ==> pool.amp_changed(sender, owner, asked, now) == Err::<
                Pool,
                PoolError,
            >(PoolError::MinAmpChangingTimeAssertion)
        }),
{
}

} // verus!
