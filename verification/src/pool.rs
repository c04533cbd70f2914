use crate::amp::{ramp_refusal, AmpState};
use crate::asset::{lemma_tax_bounds, tax_of, Asset, AssetInfo, AssetInfoView};
use crate::error::PoolError;
use crate::maker::{attribute, attribute_texts, Attribute};
use crate::math::{
    adjust_precision, adjusted, checked_add, checked_sub, isqrt, lemma_adjust_down,
    lemma_pow10_positive, mul_div, pow10, pow10_exec, ratio_floor, sqrt_of_product, Decimal,
    BPS_DENOMINATOR, DECIMAL_FRACTION, MAX_AMP, MAX_PRECISION,
};
use crate::solver::{
    ask_amount, calc_ask_amount, compute_d, fits, invariant_d, lemma_ask_amount_bounds,
    same_result,
};
use crate::text::{decimal_digits, decimal_string};
use vstd::prelude::*;
use vstd::string::StringExecFns;

verus! {

/// One of the two assets of a pool.
#[derive(Clone, Copy, Debug, PartialEq, Eq, Structural)]
pub enum Side {
    First,
    Second,
}

/// The cumulative prices of a pool as of `last_update`.
#[derive(Clone, Copy, Debug, PartialEq, Eq, Structural)]
pub struct Accumulators {
    pub price0_cumulative: u128,
    pub price1_cumulative: u128,
    pub last_update: u64,
}

/// What the price query reports: the cumulative prices brought up to the
/// time of the query, beside the balances.
#[derive(Clone, Copy, Debug, PartialEq, Eq, Structural)]
pub struct CumulativePrices {
    pub price0_cumulative: u128,
    pub price1_cumulative: u128,
    pub balance0: u128,
    pub balance1: u128,
    pub last_update: u64,
}

/// What the configuration query reports: the amplification in force and
/// the ramp behind it.
#[derive(Clone, Copy, Debug, PartialEq, Eq, Structural)]
pub struct PoolConfig {
    pub amp: u64,
    pub ramp: AmpState,
}

/// A pool of two assets.
///
/// `share_supply` counts every liquidity share in existence, the shares
/// burned at the first deposit among them. The cumulative prices grow by
/// price times seconds at every operation, computed on the balances as they
/// stood before it. While `disabled` is set, deposits and swaps are refused.
#[derive(Clone, Debug, PartialEq, Eq)]
pub struct Pool {
    pub asset0: AssetInfo,
    pub asset1: AssetInfo,
    pub precision0: u8,
    pub precision1: u8,
    pub fee_bps: u64,
    pub min_liquidity: u128,
    pub disabled: bool,
    pub balance0: u128,
    pub balance1: u128,
    pub share_supply: u128,
    pub amp: AmpState,
    pub price0_cumulative: u128,
    pub price1_cumulative: u128,
    pub last_update: u64,
}

/// Why a pool cannot be created from these parameters; `None` when it can.
pub open spec fn creation_refusal(
    asset0: AssetInfoView,
    asset1: AssetInfoView,
    precision0: u8,
    precision1: u8,
    amp: u64,
    fee_bps: u64,
) -> Option<PoolError> {
    if asset0 == asset1 {
        Some(PoolError::DoublingAssets)
    } else if precision0 > MAX_PRECISION || precision1 > MAX_PRECISION {
        Some(PoolError::InvalidPrecision)
    } else if fee_bps > BPS_DENOMINATOR {
        Some(PoolError::InvalidFeeBps)
    } else if amp == 0 || amp > MAX_AMP {
        Some(PoolError::IncorrectAmp)
    } else {
        None
    }
}

/// What a price adds to its accumulator over `elapsed` seconds: the price,
/// given in units of `1 / unit`, times the seconds, rounded down.
pub open spec fn price_increment(price: int, elapsed: int, unit: int) -> int {
    price * elapsed / unit
}

/// `n / d` as a fixed-point number with eighteen digits, rounded down.
pub open spec fn ratio18(n: int, d: int) -> Result<int, PoolError> {
    if d == 0 || !fits(ratio_floor(n, DECIMAL_FRACTION as int, d)) {
        Err(PoolError::Overflow)
    } else {
        Ok(ratio_floor(n, DECIMAL_FRACTION as int, d))
    }
}

/// What is left of one when a tolerance is taken away, never below zero.
pub open spec fn one_minus(tolerance: Decimal) -> int {
    if tolerance.atomics >= DECIMAL_FRACTION {
        0
    } else {
        DECIMAL_FRACTION - tolerance.atomics
    }
}

/// Why a deposit of `amount0` and `amount1` into a pool holding `balance0`
/// and `balance1` is refused under a tolerance; `None` when it is not.
///
/// The deposit is refused when the ratio of its amounts, lowered by the
/// tolerance, still exceeds the ratio of the balances, in either direction.
pub open spec fn slippage_refusal(
    tolerance: Decimal,
    amount0: u128,
    amount1: u128,
    balance0: u128,
    balance1: u128,
) -> Option<PoolError> {
    match ratio18(amount0 as int, amount1 as int) {
        Err(e) => Some(e),
        Ok(d01) => match ratio18(balance0 as int, balance1 as int) {
            Err(e) => Some(e),
            Ok(p01) => match ratio18(amount1 as int, amount0 as int) {
                Err(e) => Some(e),
                Ok(d10) => match ratio18(balance1 as int, balance0 as int) {
                    Err(e) => Some(e),
                    Ok(p10) => if ratio_floor(d01, one_minus(tolerance), DECIMAL_FRACTION as int)
                        > p01 || ratio_floor(d10, one_minus(tolerance), DECIMAL_FRACTION as int)
                        > p10 {
                        Some(PoolError::SlippageExceeded)
                    } else {
                        None
                    },
                },
            },
        },
    }
}

fn lowered(ratio: u128, keep: u128) -> (r: u128)
    requires
        keep <= DECIMAL_FRACTION,
    ensures
        r == ratio_floor(ratio as int, keep as int, DECIMAL_FRACTION as int),
{
    proof {
        assert(ratio_floor(ratio as int, keep as int, DECIMAL_FRACTION as int) <= ratio)
            by (nonlinear_arith)
            requires
                0 <= keep <= DECIMAL_FRACTION,
                DECIMAL_FRACTION == 1_000_000_000_000_000_000,
                ratio >= 0,
        ;
    }
    match mul_div(ratio, keep, DECIMAL_FRACTION) {
        Ok(v) => v,
        Err(_) => 0,
    }
}

/// Checks a deposit against the caller's slippage tolerance.
pub fn assert_slippage_tolerance(
    tolerance: Decimal,
    amount0: u128,
    amount1: u128,
    balance0: u128,
    balance1: u128,
) -> (r: Result<(), PoolError>)
    ensures
        match slippage_refusal(tolerance, amount0, amount1, balance0, balance1) {
            Some(e) => r == Err::<(), PoolError>(e),
            None => r == Ok::<(), PoolError>(()),
        },
{
    let keep: u128 = if tolerance.atomics >= DECIMAL_FRACTION {
        0
    } else {
        DECIMAL_FRACTION - tolerance.atomics
    };
    let d01: u128 = mul_div(amount0, DECIMAL_FRACTION, amount1)?;
    let p01: u128 = mul_div(balance0, DECIMAL_FRACTION, balance1)?;
    let d10: u128 = mul_div(amount1, DECIMAL_FRACTION, amount0)?;
    let p10: u128 = mul_div(balance1, DECIMAL_FRACTION, balance0)?;
    if lowered(d01, keep) > p01 || lowered(d10, keep) > p10 {
        return Err(PoolError::SlippageExceeded);
    }
    Ok(())
}

impl Pool {
    /// A valid pool: two different assets, precisions and fee within their
    /// limits, a valid ramp, and, once shares exist, at least the burned
    /// shares among them.
    pub open spec fn wf(self) -> bool {
        &&& self.asset0@ != self.asset1@
        &&& self.precision0 <= MAX_PRECISION
        &&& self.precision1 <= MAX_PRECISION
        &&& self.fee_bps <= BPS_DENOMINATOR
        &&& self.amp.wf()
        &&& self.share_supply == 0 || self.share_supply >= self.min_liquidity
    }

    /// Whether the pool is valid.
    pub fn is_valid(&self) -> (r: bool)
        ensures
            r == self.wf(),
    {
        !self.asset0.equal(&self.asset1) && self.precision0 <= MAX_PRECISION && self.precision1
            <= MAX_PRECISION && self.fee_bps as u128 <= BPS_DENOMINATOR && self.amp.is_valid() && (
        self.share_supply == 0 || self.share_supply >= self.min_liquidity)
    }

    /// The common precision at which the solver sees the balances: the
    /// greater of the two.
    pub open spec fn common_precision(self) -> u8 {
        if self.precision0 >= self.precision1 {
            self.precision0
        } else {
            self.precision1
        }
    }

    /// One whole unit of either asset at the common precision.
    pub open spec fn unit(self) -> int {
        pow10(self.common_precision() as nat) as int
    }

    /// The precision of the asset on one side.
    pub open spec fn precision_of(self, side: Side) -> u8 {
        match side {
            Side::First => self.precision0,
            Side::Second => self.precision1,
        }
    }

    /// The balance of the asset on one side.
    pub open spec fn balance_of(self, side: Side) -> u128 {
        match side {
            Side::First => self.balance0,
            Side::Second => self.balance1,
        }
    }

    /// An amount of the asset on one side, at the common precision.
    pub open spec fn normalized(self, side: Side, amount: int) -> int {
        adjusted(amount, self.precision_of(side) as nat, self.common_precision() as nat)
    }

    /// The price of the asset on one side under the amplification `amp`:
    /// what a swap of one whole unit of it returns before fees, at the
    /// common precision.
    pub open spec fn price(self, side: Side, amp: int) -> Result<int, PoolError> {
        let n0 = self.normalized(Side::First, self.balance0 as int);
        let n1 = self.normalized(Side::Second, self.balance1 as int);
        if !fits(n0) || !fits(n1) {
            Err(PoolError::Overflow)
        } else {
            match side {
                Side::First => ask_amount(n0, n1, self.unit(), amp),
                Side::Second => ask_amount(n1, n0, self.unit(), amp),
            }
        }
    }

    /// The cumulative prices as stored.
    pub open spec fn accumulators(self) -> Accumulators {
        Accumulators {
            price0_cumulative: self.price0_cumulative,
            price1_cumulative: self.price1_cumulative,
            last_update: self.last_update,
        }
    }

    /// The cumulative prices brought up to `now`.
    ///
    /// Nothing moves when no time has passed. While no share exists only the
    /// time moves. Otherwise each accumulator grows by the price at the
    /// balances held, under the amplification in force at `now`, times the
    /// seconds passed.
    pub open spec fn projected(self, now: u64) -> Result<Accumulators, PoolError> {
        if now <= self.last_update {
            Ok(self.accumulators())
        } else if self.share_supply == 0 {
            Ok(Accumulators { last_update: now, ..self.accumulators() })
        } else {
            let amp = self.amp.amp_at(now as int);
            match self.price(Side::First, amp) {
                Err(e) => Err(e),
                Ok(price0) => match self.price(Side::Second, amp) {
                    Err(e) => Err(e),
                    Ok(price1) => {
                        let elapsed = now - self.last_update;
                        let sum0 = self.price0_cumulative + price_increment(
                            price0,
                            elapsed,
                            self.unit(),
                        );
                        let sum1 = self.price1_cumulative + price_increment(
                            price1,
                            elapsed,
                            self.unit(),
                        );
                        if fits(sum0) && fits(sum1) {
                            Ok(
                                Accumulators {
                                    price0_cumulative: sum0 as u128,
                                    price1_cumulative: sum1 as u128,
                                    last_update: now,
                                },
                            )
                        } else {
                            Err(PoolError::Overflow)
                        }
                    },
                },
            }
        }
    }

    /// Creates an empty pool whose amplification is `amp` from `now` on.
    ///
    /// `min_liquidity` is the number of shares that the first deposit burns.
    pub fn new(
        asset0: AssetInfo,
        asset1: AssetInfo,
        precision0: u8,
        precision1: u8,
        amp: u64,
        fee_bps: u64,
        min_liquidity: u128,
        now: u64,
    ) -> (r: Result<Pool, PoolError>)
        ensures
            match creation_refusal(asset0@, asset1@, precision0, precision1, amp, fee_bps) {
                Some(e) => r == Err::<Pool, PoolError>(e),
                None => r == Ok::<Pool, PoolError>(
                    Pool {
                        asset0,
                        asset1,
                        precision0,
                        precision1,
                        fee_bps,
                        min_liquidity,
                        disabled: false,
                        balance0: 0,
                        balance1: 0,
                        share_supply: 0,
                        amp: AmpState {
                            init_amp: amp,
                            init_amp_time: now,
                            next_amp: amp,
                            next_amp_time: now,
                        },
                        price0_cumulative: 0,
                        price1_cumulative: 0,
                        last_update: now,
                    },
                ),
            },
            r matches Ok(p) ==> p.wf(),
    {
        if asset0.equal(&asset1) {
            return Err(PoolError::DoublingAssets);
        }
        if precision0 > MAX_PRECISION || precision1 > MAX_PRECISION {
            return Err(PoolError::InvalidPrecision);
        }
        if fee_bps as u128 > BPS_DENOMINATOR {
            return Err(PoolError::InvalidFeeBps);
        }
        let ramp: AmpState = AmpState::new(amp, now)?;
        Ok(
            Pool {
                asset0,
                asset1,
                precision0,
                precision1,
                fee_bps,
                min_liquidity,
                disabled: false,
                balance0: 0,
                balance1: 0,
                share_supply: 0,
                amp: ramp,
                price0_cumulative: 0,
                price1_cumulative: 0,
                last_update: now,
            },
        )
    }

    /// The common precision at which the solver sees the balances.
    pub fn greater_precision(&self) -> (r: u8)
        ensures
            r == self.common_precision(),
    {
        if self.precision0 >= self.precision1 {
            self.precision0
        } else {
            self.precision1
        }
    }

    /// Which side of the pool an asset is on, if any.
    pub fn side_of(&self, asset: &AssetInfo) -> (r: Option<Side>)
        ensures
            r == (if asset@ == self.asset0@ {
                Some(Side::First)
            } else if asset@ == self.asset1@ {
                Some(Side::Second)
            } else {
                None
            }),
    {
        if asset.equal(&self.asset0) {
            Some(Side::First)
        } else if asset.equal(&self.asset1) {
            Some(Side::Second)
        } else {
            None
        }
    }

    /// The price of the asset on one side under the amplification `amp`.
    pub fn price_of(&self, side: Side, amp: u64) -> (r: Result<u128, PoolError>)
        requires
            self.wf(),
        ensures
            same_result(r, self.price(side, amp as int)),
    {
        let gp: u8 = self.greater_precision();
        let n0: u128 = adjust_precision(self.balance0, self.precision0, gp)?;
        let n1: u128 = adjust_precision(self.balance1, self.precision1, gp)?;
        let unit: u128 = pow10_exec(gp);
        match side {
            Side::First => calc_ask_amount(n0, n1, unit, amp),
            Side::Second => calc_ask_amount(n1, n0, unit, amp),
        }
    }

    /// The cumulative prices brought up to `now`, the pool left as it is.
    pub fn project_prices(&self, now: u64) -> (r: Result<Accumulators, PoolError>)
        requires
            self.wf(),
        ensures
            r == self.projected(now),
    {
        let stored = Accumulators {
            price0_cumulative: self.price0_cumulative,
            price1_cumulative: self.price1_cumulative,
            last_update: self.last_update,
        };
        if now <= self.last_update {
            return Ok(stored);
        }
        if self.share_supply == 0 {
            return Ok(
                Accumulators {
                    price0_cumulative: self.price0_cumulative,
                    price1_cumulative: self.price1_cumulative,
                    last_update: now,
                },
            );
        }
        let amp: u64 = self.amp.effective_amp(now);
        let price0: u128 = self.price_of(Side::First, amp)?;
        let price1: u128 = self.price_of(Side::Second, amp)?;
        let elapsed: u128 = (now - self.last_update) as u128;
        let unit: u128 = pow10_exec(self.greater_precision());
        proof {
            assert(price_increment(price0 as int, elapsed as int, unit as int) >= 0)
                by (nonlinear_arith)
                requires
                    price0 >= 0,
                    elapsed >= 0,
                    unit >= 1,
            ;
            assert(price_increment(price1 as int, elapsed as int, unit as int) >= 0)
                by (nonlinear_arith)
                requires
                    price1 >= 0,
                    elapsed >= 0,
                    unit >= 1,
            ;
        }
        let i0: u128 = mul_div(price0, elapsed, unit)?;
        let i1: u128 = mul_div(price1, elapsed, unit)?;
        let sum0: u128 = checked_add(self.price0_cumulative, i0)?;
        let sum1: u128 = checked_add(self.price1_cumulative, i1)?;
        Ok(Accumulators { price0_cumulative: sum0, price1_cumulative: sum1, last_update: now })
    }

    /// The cumulative prices as of `now`, beside the balances.
    pub fn cumulative_prices(&self, now: u64) -> (r: Result<CumulativePrices, PoolError>)
        requires
            self.wf(),
        ensures
            match self.projected(now) {
                Ok(a) => r == Ok::<CumulativePrices, PoolError>(
                    CumulativePrices {
                        price0_cumulative: a.price0_cumulative,
                        price1_cumulative: a.price1_cumulative,
                        balance0: self.balance0,
                        balance1: self.balance1,
                        last_update: a.last_update,
                    },
                ),
                Err(e) => r == Err::<CumulativePrices, PoolError>(e),
            },
    {
        let a: Accumulators = self.project_prices(now)?;
        Ok(
            CumulativePrices {
                price0_cumulative: a.price0_cumulative,
                price1_cumulative: a.price1_cumulative,
                balance0: self.balance0,
                balance1: self.balance1,
                last_update: a.last_update,
            },
        )
    }

    /// The amplification in force at `now`, and the ramp behind it.
    pub fn current_config(&self, now: u64) -> (r: PoolConfig)
        requires
            self.wf(),
        ensures
            r.amp == self.amp.amp_at(now as int),
            r.ramp == self.amp,
    {
        PoolConfig { amp: self.amp.effective_amp(now), ramp: self.amp }
    }

    /// The two balances.
    pub fn pool_balances(&self) -> (r: (u128, u128))
        ensures
            r == (self.balance0, self.balance1),
    {
        (self.balance0, self.balance1)
    }
}

impl Pool {
    /// The pool with its cumulative prices replaced.
    pub open spec fn with_accumulators(self, a: Accumulators) -> Pool {
        Pool {
            price0_cumulative: a.price0_cumulative,
            price1_cumulative: a.price1_cumulative,
            last_update: a.last_update,
            ..self
        }
    }

    /// The shares that a deposit creates under the amplification `amp`:
    /// those handed to the recipient, then those added to the supply.
    ///
    /// The first deposit creates the integer square root of the product of
    /// its two amounts, of which `min_liquidity` shares are burned; it is
    /// refused unless something is left for the recipient. A later deposit
    /// creates shares in proportion to the growth of the invariant:
    /// `share_supply * (D1 - D0) / D0`, rounded down.
    pub open spec fn minted(self, amount0: u128, amount1: u128, amp: int) -> Result<
        (int, int),
        PoolError,
    > {
        if self.share_supply == 0 {
            let initial = isqrt(amount0 * amount1);
            if initial <= self.min_liquidity {
                Err(PoolError::InsufficientFunds)
            } else {
                Ok((initial - self.min_liquidity, initial))
            }
        } else {
            let n0 = self.normalized(Side::First, self.balance0 as int);
            let n1 = self.normalized(Side::Second, self.balance1 as int);
            let m0 = self.normalized(Side::First, self.balance0 + amount0);
            let m1 = self.normalized(Side::Second, self.balance1 + amount1);
            if !fits(n0) || !fits(n1) {
                Err(PoolError::Overflow)
            } else {
                match invariant_d(amp, n0, n1) {
                    Err(e) => Err(e),
                    Ok(d0) => if d0 == 0 {
                        Err(PoolError::InsufficientFunds)
                    } else if !fits(self.balance0 + amount0) || !fits(self.balance1 + amount1)
                        || !fits(m0) || !fits(m1) {
                        Err(PoolError::Overflow)
                    } else {
                        match invariant_d(amp, m0, m1) {
                            Err(e) => Err(e),
                            Ok(d1) => if d1 < d0 {
                                Err(PoolError::Underflow)
                            } else if !fits(ratio_floor(self.share_supply as int, d1 - d0, d0)) {
                                Err(PoolError::Overflow)
                            } else {
                                Ok(
                                    (
                                        ratio_floor(self.share_supply as int, d1 - d0, d0),
                                        ratio_floor(self.share_supply as int, d1 - d0, d0),
                                    ),
                                )
                            },
                        }
                    },
                }
            }
        }
    }

    /// The pool after a deposit at `now`, and the shares handed to the
    /// recipient; or why the deposit is refused.
    pub open spec fn provided(
        self,
        amount0: u128,
        amount1: u128,
        tolerance: Option<Decimal>,
        min_share: Option<u128>,
        now: u64,
    ) -> Result<(Pool, u128), PoolError> {
        if self.disabled {
            Err(PoolError::PairDisabled)
        } else {
            self.deposited(amount0, amount1, tolerance, min_share, now)
        }
    }

    /// The pool after a deposit at `now` into a pool that is switched on,
    /// and the shares handed to the recipient; or why the deposit is
    /// refused.
    pub open spec fn deposited(
        self,
        amount0: u128,
        amount1: u128,
        tolerance: Option<Decimal>,
        min_share: Option<u128>,
        now: u64,
    ) -> Result<(Pool, u128), PoolError> {
        match self.projected(now) {
            Err(e) => Err(e),
            Ok(acc) => {
                let refusal = if tolerance.is_some() && self.share_supply > 0 {
                    slippage_refusal(
                        tolerance.unwrap(),
                        amount0,
                        amount1,
                        self.balance0,
                        self.balance1,
                    )
                } else {
                    None
                };
                if refusal.is_some() {
                    Err(refusal.unwrap())
                } else {
                    match self.minted(amount0, amount1, self.amp.amp_at(now as int)) {
                        Err(e) => Err(e),
                        Ok((share, increase)) => if min_share.is_some() && share
                            < min_share.unwrap() {
                            Err(PoolError::SlippageExceeded)
                        } else if !fits(self.balance0 + amount0) || !fits(self.balance1 + amount1)
                            || !fits(self.share_supply + increase) {
                            Err(PoolError::Overflow)
                        } else {
                            Ok(
                                (
                                    Pool {
                                        balance0: (self.balance0 + amount0) as u128,
                                        balance1: (self.balance1 + amount1) as u128,
                                        share_supply: (self.share_supply + increase) as u128,
                                        ..self.with_accumulators(acc)
                                    },
                                    share as u128,
                                ),
                            )
                        },
                    }
                }
            },
        }
    }

    /// What a holder of `share_amount` shares is owed of a balance.
    pub open spec fn refund(balance: u128, share_amount: u128, share_supply: u128) -> int {
        ratio_floor(balance as int, share_amount as int, share_supply as int)
    }

    /// The pool after `share_amount` shares are given back at `now`, and
    /// the two amounts paid out; or why the withdrawal is refused. The
    /// burned shares cannot be given back.
    pub open spec fn withdrawn(self, share_amount: u128, now: u64) -> Result<
        (Pool, u128, u128),
        PoolError,
    > {
        match self.projected(now) {
            Err(e) => Err(e),
            Ok(acc) => if self.share_supply == 0 || share_amount + self.min_liquidity
                > self.share_supply {
                Err(PoolError::InsufficientFunds)
            } else {
                let r0 = Self::refund(self.balance0, share_amount, self.share_supply);
                let r1 = Self::refund(self.balance1, share_amount, self.share_supply);
                Ok(
                    (
                        Pool {
                            balance0: (self.balance0 - r0) as u128,
                            balance1: (self.balance1 - r1) as u128,
                            share_supply: (self.share_supply - share_amount) as u128,
                            ..self.with_accumulators(acc)
                        },
                        r0 as u128,
                        r1 as u128,
                    ),
                )
            },
        }
    }

    fn mint_amounts(&self, amount0: u128, amount1: u128, amp: u64) -> (r: Result<
        (u128, u128),
        PoolError,
    >)
        requires
            self.wf(),
        ensures
            match self.minted(amount0, amount1, amp as int) {
                Ok((share, increase)) => r == Ok::<(u128, u128), PoolError>(
                    (share as u128, increase as u128),
                ) && fits(share) && fits(increase),
                Err(e) => r == Err::<(u128, u128), PoolError>(e),
            },
    {
        if self.share_supply == 0 {
            let initial: u128 = sqrt_of_product(amount0, amount1);
            if initial <= self.min_liquidity {
                return Err(PoolError::InsufficientFunds);
            }
            return Ok((initial - self.min_liquidity, initial));
        }
        let gp: u8 = self.greater_precision();
        let n0: u128 = adjust_precision(self.balance0, self.precision0, gp)?;
        let n1: u128 = adjust_precision(self.balance1, self.precision1, gp)?;
        let d0: u128 = compute_d(amp, n0, n1)?;
        if d0 == 0 {
            return Err(PoolError::InsufficientFunds);
        }
        let b0: u128 = checked_add(self.balance0, amount0)?;
        let b1: u128 = checked_add(self.balance1, amount1)?;
        let m0: u128 = adjust_precision(b0, self.precision0, gp)?;
        let m1: u128 = adjust_precision(b1, self.precision1, gp)?;
        let d1: u128 = compute_d(amp, m0, m1)?;
        let growth: u128 = checked_sub(d1, d0)?;
        proof {
            assert(ratio_floor(self.share_supply as int, growth as int, d0 as int) >= 0)
                by (nonlinear_arith)
                requires
                    self.share_supply >= 0,
                    growth >= 0,
                    d0 > 0,
            ;
        }
        let share: u128 = mul_div(self.share_supply, growth, d0)?;
        Ok((share, share))
    }

    /// Deposits `amount0` and `amount1` at `now` and returns the number of
    /// shares to hand to the recipient.
    ///
    /// A pool that is switched off refuses with `PairDisabled`. The
    /// cumulative prices are first brought up to `now` on the balances held
    /// before the deposit. With a tolerance, and once shares exist, the
    /// deposit is refused with `SlippageExceeded` when its ratio strays from
    /// that of the pool; with a minimum, when fewer shares would be created.
    /// A refused deposit leaves the pool as it was.
    pub fn provide_liquidity(
        &mut self,
        amount0: u128,
        amount1: u128,
        tolerance: Option<Decimal>,
        min_share: Option<u128>,
        now: u64,
    ) -> (r: Result<u128, PoolError>)
        requires
            old(self).wf(),
        ensures
            final(self).wf(),
            match old(self).provided(amount0, amount1, tolerance, min_share, now) {
                Ok((pool, share)) => r == Ok::<u128, PoolError>(share) && *final(self) == pool,
                Err(e) => r == Err::<u128, PoolError>(e) && *final(self) == *old(self),
            },
    {
        if self.disabled {
            return Err(PoolError::PairDisabled);
        }
        let acc: Accumulators = self.project_prices(now)?;
        if self.share_supply > 0 {
            if let Some(t) = tolerance {
                assert_slippage_tolerance(t, amount0, amount1, self.balance0, self.balance1)?;
            }
        }
        let amp: u64 = self.amp.effective_amp(now);
        let (share, increase) = self.mint_amounts(amount0, amount1, amp)?;
        if let Some(m) = min_share {
            if share < m {
                return Err(PoolError::SlippageExceeded);
            }
        }
        let b0: u128 = checked_add(self.balance0, amount0)?;
        let b1: u128 = checked_add(self.balance1, amount1)?;
        let supply: u128 = checked_add(self.share_supply, increase)?;
        self.balance0 = b0;
        self.balance1 = b1;
        self.share_supply = supply;
        self.price0_cumulative = acc.price0_cumulative;
        self.price1_cumulative = acc.price1_cumulative;
        self.last_update = acc.last_update;
        Ok(share)
    }

    /// Gives back `share_amount` shares at `now` and returns the amounts of
    /// the two assets to pay out: each balance times the shares given back
    /// over the share supply, rounded down.
    ///
    /// Refused with `InsufficientFunds` when more shares are given back than
    /// exist beside the burned ones. A refused withdrawal leaves the pool as
    /// it was.
    pub fn withdraw_liquidity(&mut self, share_amount: u128, now: u64) -> (r: Result<
        (u128, u128),
        PoolError,
    >)
        requires
            old(self).wf(),
        ensures
            final(self).wf(),
            match old(self).withdrawn(share_amount, now) {
                Ok((pool, r0, r1)) => r == Ok::<(u128, u128), PoolError>((r0, r1)) && *final(self)
                    == pool,
                Err(e) => r == Err::<(u128, u128), PoolError>(e) && *final(self) == *old(self),
            },
    {
        let acc: Accumulators = self.project_prices(now)?;
        if self.share_supply == 0 || share_amount > self.share_supply - self.min_liquidity {
            return Err(PoolError::InsufficientFunds);
        }
        proof {
            lemma_refund_bounds(self.balance0, share_amount, self.share_supply);
            lemma_refund_bounds(self.balance1, share_amount, self.share_supply);
        }
        let r0: u128 = mul_div(self.balance0, share_amount, self.share_supply)?;
        let r1: u128 = mul_div(self.balance1, share_amount, self.share_supply)?;
        self.balance0 = self.balance0 - r0;
        self.balance1 = self.balance1 - r1;
        self.share_supply = self.share_supply - share_amount;
        self.price0_cumulative = acc.price0_cumulative;
        self.price1_cumulative = acc.price1_cumulative;
        self.last_update = acc.last_update;
        Ok((r0, r1))
    }
}

/// Dividing two amounts by one divisor, each rounded down, gives no more
/// in sum than dividing their sum.
pub proof fn lemma_floor_sum(a: int, b: int, k: int)
    requires
        a >= 0,
        b >= 0,
        k > 0,
    ensures
        0 <= a / k,
        0 <= b / k,
        a / k + b / k <= (a + b) / k,
{
    vstd::arithmetic::div_mod::lemma_fundamental_div_mod(a, k);
    vstd::arithmetic::div_mod::lemma_fundamental_div_mod(b, k);
    let q = a / k + b / k;
    assert(0 <= a % k && 0 <= b % k && 0 <= a / k && 0 <= b / k) by (nonlinear_arith)
        requires
            a >= 0,
            b >= 0,
            k > 0,
    ;
    assert(k * q <= a + b) by (nonlinear_arith)
        requires
            a == k * (a / k) + a % k,
            b == k * (b / k) + b % k,
            q == a / k + b / k,
            0 <= a % k,
            0 <= b % k,
    ;
    vstd::arithmetic::div_mod::lemma_div_is_ordered(k * q, a + b, k);
    vstd::arithmetic::div_mod::lemma_div_multiples_vanish(q, k);
}

/// What a swap returns and what it keeps as commission are together no
/// more than the pool holds of the asset asked for.
pub proof fn lemma_swap_within_balance(pool: Pool, side: Side, offer_amount: u128, amp: int)
    requires
        pool.wf(),
    ensures
        pool.swap_amounts(side, offer_amount, amp) matches Ok((ret, spread, commission)) ==> 0
            <= ret && 0 <= spread && 0 <= commission && ret + commission <= pool.balance_of(
            opposite(side),
        ),
{
    if pool.swap_amounts(side, offer_amount, amp) is Ok {
        let ask = opposite(side);
        let gp = pool.common_precision() as nat;
        let p = pool.precision_of(ask) as nat;
        let balance = pool.balance_of(ask) as int;
        let offer_pool = pool.normalized(side, pool.balance_of(side) as int);
        let ask_pool = pool.normalized(ask, balance);
        let offer = pool.normalized(side, offer_amount as int);
        let raw = ask_amount(offer_pool, ask_pool, offer, amp)->Ok_0;
        lemma_ask_amount_bounds(offer_pool, ask_pool, offer, amp);
        let spread = if offer > raw {
            offer - raw
        } else {
            0
        };
        let fee = pool.fee_bps as int;
        let commission = ratio_floor(raw, fee, BPS_DENOMINATOR as int);
        assert(0 <= commission <= raw) by (nonlinear_arith)
            requires
                commission == raw * fee / 10_000,
                raw >= 0,
                0 <= fee <= 10_000,
        ;
        let k = pow10((gp - p) as nat) as int;
        lemma_pow10_positive((gp - p) as nat);
        lemma_adjust_down(raw - commission, gp, p);
        lemma_adjust_down(spread, gp, p);
        lemma_adjust_down(commission, gp, p);
        if p == gp {
            assert(balance * 1 == balance);
        } else {
            lemma_floor_sum(raw - commission, commission, k);
            assert(raw <= balance * k);
            vstd::arithmetic::div_mod::lemma_div_is_ordered(raw, balance * k, k);
            vstd::arithmetic::div_mod::lemma_div_multiples_vanish(balance, k);
            assert(balance * k == k * balance) by (nonlinear_arith);
        }
    }
}

/// A holder is never owed more than the balance, nor less than nothing.
pub proof fn lemma_refund_bounds(balance: u128, share_amount: u128, share_supply: u128)
    requires
        share_supply > 0,
        share_amount <= share_supply,
    ensures
        0 <= Pool::refund(balance, share_amount, share_supply) <= balance,
        share_amount == share_supply ==> Pool::refund(balance, share_amount, share_supply)
            == balance,
{
    let b = balance as int;
    let a = share_amount as int;
    let s = share_supply as int;
    assert(0 <= b * a <= b * s) by (nonlinear_arith)
        requires
            0 <= b,
            0 <= a <= s,
    ;
    vstd::arithmetic::div_mod::lemma_div_is_ordered(0, b * a, s);
    vstd::arithmetic::div_mod::lemma_div_is_ordered(b * a, b * s, s);
    vstd::arithmetic::div_mod::lemma_div_multiples_vanish(b, s);
    assert(b * s == s * b) by (nonlinear_arith);
    assert(0int / s == 0) by (nonlinear_arith)
        requires
            s > 0,
    ;
}

/// The spread allowed against a belief price when the caller names none:
/// five thousandths.
pub const DEFAULT_SLIPPAGE: u128 = 5_000_000_000_000_000;

/// The tax on transfers of a native currency: a rate, and a cap on the tax
/// of one transfer.
#[derive(Clone, Copy, Debug, PartialEq, Eq, Structural)]
pub struct Tax {
    pub rate: Decimal,
    pub cap: u128,
}

/// What a swap yields, in units of the asset asked for.
///
/// `return_amount` leaves the pool's balance; `commission_amount` is the fee
/// and stays in it. `tax_amount` is what the transfer of `return_amount`
/// loses to tax on its way to the receiver.
#[derive(Clone, Copy, Debug, PartialEq, Eq, Structural)]
pub struct SwapOutcome {
    pub return_amount: u128,
    pub spread_amount: u128,
    pub commission_amount: u128,
    pub tax_amount: u128,
}

/// The other side.
pub open spec fn opposite(side: Side) -> Side {
    match side {
        Side::First => Side::Second,
        Side::Second => Side::First,
    }
}

/// Why a swap of `offer_amount` that returns `actual` is refused under a
/// belief price; `None` when it is not.
///
/// The return expected is the offer divided by the belief price. The swap is
/// refused when the actual return is below the expected return lowered by
/// the spread allowed, which is `DEFAULT_SLIPPAGE` when the caller names
/// none. Without a belief price nothing is refused.
pub open spec fn spread_refusal(
    belief_price: Option<Decimal>,
    max_spread: Option<Decimal>,
    offer_amount: u128,
    actual: int,
) -> Option<PoolError> {
    match belief_price {
        None => None,
        Some(price) => {
            let expected = ratio_floor(
                offer_amount as int,
                DECIMAL_FRACTION as int,
                price.atomics as int,
            );
            let allowed = match max_spread {
                Some(m) => m,
                None => Decimal { atomics: DEFAULT_SLIPPAGE },
            };
            if price.atomics == 0 || !fits(expected) {
                Some(PoolError::Overflow)
            } else if actual < ratio_floor(expected, one_minus(allowed), DECIMAL_FRACTION as int) {
                Some(PoolError::MaxSpreadAssertion)
            } else {
                None
            }
        },
    }
}

/// Checks what a swap returns against the caller's belief price.
pub fn assert_max_spread(
    belief_price: Option<Decimal>,
    max_spread: Option<Decimal>,
    offer_amount: u128,
    actual: u128,
) -> (r: Result<(), PoolError>)
    ensures
        match spread_refusal(belief_price, max_spread, offer_amount, actual as int) {
            Some(e) => r == Err::<(), PoolError>(e),
            None => r == Ok::<(), PoolError>(()),
        },
{
    match belief_price {
        None => Ok(()),
        Some(price) => {
            let expected: u128 = mul_div(offer_amount, DECIMAL_FRACTION, price.atomics)?;
            let allowed: u128 = match max_spread {
                Some(m) => m.atomics,
                None => DEFAULT_SLIPPAGE,
            };
            let keep: u128 = if allowed >= DECIMAL_FRACTION {
                0
            } else {
                DECIMAL_FRACTION - allowed
            };
            if actual < lowered(expected, keep) {
                return Err(PoolError::MaxSpreadAssertion);
            }
            Ok(())
        },
    }
}

impl Pool {
    /// The asset on one side.
    pub open spec fn asset_of(self, side: Side) -> AssetInfo {
        match side {
            Side::First => self.asset0,
            Side::Second => self.asset1,
        }
    }

    /// The side that an asset is on, if any.
    pub open spec fn side_with(self, asset: AssetInfoView) -> Option<Side> {
        if asset == self.asset0@ {
            Some(Side::First)
        } else if asset == self.asset1@ {
            Some(Side::Second)
        } else {
            None
        }
    }

    /// An amount at the common precision, brought back to the precision of
    /// the asset on one side, rounded down.
    pub open spec fn denormalized(self, side: Side, amount: int) -> int {
        adjusted(amount, self.common_precision() as nat, self.precision_of(side) as nat)
    }

    /// What a swap of `offer_amount` of the asset on `side` yields under the
    /// amplification `amp`: the amount returned, the spread and the
    /// commission, each in units of the asset asked for.
    ///
    /// The solver works at the common precision. The spread is what the
    /// return before fees falls short of the offer. The commission is the
    /// return before fees times the fee in basis points, rounded down, and
    /// the amount returned is the rest.
    pub open spec fn swap_amounts(self, side: Side, offer_amount: u128, amp: int) -> Result<
        (int, int, int),
        PoolError,
    > {
        let ask = opposite(side);
        let offer_pool = self.normalized(side, self.balance_of(side) as int);
        let ask_pool = self.normalized(ask, self.balance_of(ask) as int);
        let offer = self.normalized(side, offer_amount as int);
        if !fits(offer_pool) || !fits(ask_pool) || !fits(offer) {
            Err(PoolError::Overflow)
        } else {
            match ask_amount(offer_pool, ask_pool, offer, amp) {
                Err(e) => Err(e),
                Ok(raw) => {
                    let spread = if offer > raw {
                        offer - raw
                    } else {
                        0
                    };
                    let commission = ratio_floor(raw, self.fee_bps as int, BPS_DENOMINATOR as int);
                    Ok(
                        (
                            self.denormalized(ask, raw - commission),
                            self.denormalized(ask, spread),
                            self.denormalized(ask, commission),
                        ),
                    )
                },
            }
        }
    }

    /// The tax that a transfer of `amount` of the asset on `side` loses:
    /// nothing for a token or when no tax is named.
    pub open spec fn transfer_tax(self, side: Side, amount: int, tax: Option<Tax>) -> Result<
        int,
        PoolError,
    > {
        if tax.is_some() && self.asset_of(side)@ is NativeToken {
            if tax.unwrap().rate.atomics + DECIMAL_FRACTION > u128::MAX {
                Err(PoolError::Overflow)
            } else {
                Ok(tax_of(amount, tax.unwrap().rate.atomics as int, tax.unwrap().cap as int))
            }
        } else {
            Ok(0)
        }
    }

    /// The pool after a swap at `now`, and what the swap yields; or why the
    /// swap is refused.
    pub open spec fn swapped(
        self,
        offer_asset: AssetInfoView,
        offer_amount: u128,
        belief_price: Option<Decimal>,
        max_spread: Option<Decimal>,
        tax: Option<Tax>,
        now: u64,
    ) -> Result<(Pool, SwapOutcome), PoolError> {
        if self.disabled {
            Err(PoolError::PairDisabled)
        } else {
            match self.side_with(offer_asset) {
                None => Err(PoolError::AssetMismatch),
                Some(side) => self.swapped_on(
                    side,
                    offer_amount,
                    belief_price,
                    max_spread,
                    tax,
                    now,
                ),
            }
        }
    }

    /// The pool after a swap of the asset on `side` at `now`, and what the
    /// swap yields; or why the swap is refused.
    pub open spec fn swapped_on(
        self,
        side: Side,
        offer_amount: u128,
        belief_price: Option<Decimal>,
        max_spread: Option<Decimal>,
        tax: Option<Tax>,
        now: u64,
    ) -> Result<(Pool, SwapOutcome), PoolError> {
        match self.projected(now) {
            Err(e) => Err(e),
            Ok(acc) => match self.swap_amounts(side, offer_amount, self.amp.amp_at(now as int)) {
                Err(e) => Err(e),
                Ok((ret, spread, commission)) => {
                    let ask = opposite(side);
                    let refusal = spread_refusal(
                        belief_price,
                        max_spread,
                        offer_amount,
                        ret + commission,
                    );
                    if refusal.is_some() {
                        Err(refusal.unwrap())
                    } else {
                        match self.transfer_tax(ask, ret, tax) {
                            Err(e) => Err(e),
                            Ok(tax_amount) => if !fits(self.balance_of(side) + offer_amount) {
                                Err(PoolError::Overflow)
                            } else {
                                let outcome = SwapOutcome {
                                    return_amount: ret as u128,
                                    spread_amount: spread as u128,
                                    commission_amount: commission as u128,
                                    tax_amount: tax_amount as u128,
                                };
                                let rolled = self.with_accumulators(acc);
                                match side {
                                    Side::First => Ok(
                                        (
                                            Pool {
                                                balance0: (self.balance0
                                                    + offer_amount) as u128,
                                                balance1: (self.balance1 - ret) as u128,
                                                ..rolled
                                            },
                                            outcome,
                                        ),
                                    ),
                                    Side::Second => Ok(
                                        (
                                            Pool {
                                                balance0: (self.balance0 - ret) as u128,
                                                balance1: (self.balance1
                                                    + offer_amount) as u128,
                                                ..rolled
                                            },
                                            outcome,
                                        ),
                                    ),
                                }
                            },
                        }
                    }
                },
            },
        }
    }

    fn compute_swap(&self, side: Side, offer_amount: u128, amp: u64) -> (r: Result<
        (u128, u128, u128),
        PoolError,
    >)
        requires
            self.wf(),
        ensures
            match self.swap_amounts(side, offer_amount, amp as int) {
                Ok((ret, spread, commission)) => r == Ok::<(u128, u128, u128), PoolError>(
                    (ret as u128, spread as u128, commission as u128),
                ) && fits(ret) && fits(spread) && fits(commission),
                Err(e) => r == Err::<(u128, u128, u128), PoolError>(e),
            },
    {
        let gp: u8 = self.greater_precision();
        let (offer_balance, offer_precision, ask_balance, ask_precision) = match side {
            Side::First => (self.balance0, self.precision0, self.balance1, self.precision1),
            Side::Second => (self.balance1, self.precision1, self.balance0, self.precision0),
        };
        let offer_pool: u128 = adjust_precision(offer_balance, offer_precision, gp)?;
        let ask_pool: u128 = adjust_precision(ask_balance, ask_precision, gp)?;
        let offer: u128 = adjust_precision(offer_amount, offer_precision, gp)?;
        let raw: u128 = calc_ask_amount(offer_pool, ask_pool, offer, amp)?;
        let spread: u128 = if offer > raw {
            offer - raw
        } else {
            0
        };
        proof {
            assert(0 <= ratio_floor(raw as int, self.fee_bps as int, BPS_DENOMINATOR as int)
                <= raw) by (nonlinear_arith)
                requires
                    raw >= 0,
                    0 <= self.fee_bps <= BPS_DENOMINATOR,
                    BPS_DENOMINATOR == 10_000,
            ;
        }
        let commission: u128 = mul_div(raw, self.fee_bps as u128, BPS_DENOMINATOR)?;
        let rest: u128 = raw - commission;
        proof {
            lemma_adjust_down(rest as int, gp as nat, ask_precision as nat);
            lemma_adjust_down(spread as int, gp as nat, ask_precision as nat);
            lemma_adjust_down(commission as int, gp as nat, ask_precision as nat);
        }
        let ret: u128 = adjust_precision(rest, gp, ask_precision)?;
        let spread_out: u128 = adjust_precision(spread, gp, ask_precision)?;
        let commission_out: u128 = adjust_precision(commission, gp, ask_precision)?;
        Ok((ret, spread_out, commission_out))
    }

    fn tax_on(&self, side: Side, amount: u128, tax: Option<Tax>) -> (r: Result<u128, PoolError>)
        ensures
            same_result(r, self.transfer_tax(side, amount as int, tax)),
    {
        let info: &AssetInfo = match side {
            Side::First => &self.asset0,
            Side::Second => &self.asset1,
        };
        match tax {
            None => Ok(0),
            Some(t) => {
                let asset = Asset { info: info.duplicate(), amount };
                proof {
                    lemma_tax_bounds(amount as int, t.rate.atomics as int, t.cap as int);
                }
                match asset.compute_tax(t.rate, t.cap) {
                    Ok(v) => Ok(v),
                    Err(_) => Err(PoolError::Overflow),
                }
            },
        }
    }

    /// Swaps `offer_amount` of `offer_asset` for the other asset at `now`.
    ///
    /// A pool that is switched off refuses with `PairDisabled`. The
    /// cumulative prices are first brought up to `now` on the balances held
    /// before the swap. The offer is added to its balance, and the
    /// amount returned leaves the other; the commission stays in the pool.
    /// The swap is refused with `AssetMismatch` for an asset that is not in
    /// the pool and with `MaxSpreadAssertion` when it returns less than the
    /// belief price allows. `tax` is the tax on transfers of the asset asked
    /// for, if it is a taxed native currency. A refused swap leaves the pool
    /// as it was.
    pub fn swap(
        &mut self,
        offer_asset: &AssetInfo,
        offer_amount: u128,
        belief_price: Option<Decimal>,
        max_spread: Option<Decimal>,
        tax: Option<Tax>,
        now: u64,
    ) -> (r: Result<SwapOutcome, PoolError>)
        requires
            old(self).wf(),
        ensures
            final(self).wf(),
            match old(self).swapped(
                offer_asset@,
                offer_amount,
                belief_price,
                max_spread,
                tax,
                now,
            ) {
                Ok((pool, outcome)) => r == Ok::<SwapOutcome, PoolError>(outcome) && *final(self)
                    == pool,
                Err(e) => r == Err::<SwapOutcome, PoolError>(e) && *final(self) == *old(self),
            },
    {
        if self.disabled {
            return Err(PoolError::PairDisabled);
        }
        let side: Side = match self.side_of(offer_asset) {
            Some(s) => s,
            None => {
                return Err(PoolError::AssetMismatch);
            },
        };
        let acc: Accumulators = self.project_prices(now)?;
        let amp: u64 = self.amp.effective_amp(now);
        let (ret, spread, commission) = self.compute_swap(side, offer_amount, amp)?;
        proof {
            lemma_swap_within_balance(*self, side, offer_amount, amp as int);
        }
        let actual: u128 = ret + commission;
        assert_max_spread(belief_price, max_spread, offer_amount, actual)?;
        let ask: Side = match side {
            Side::First => Side::Second,
            Side::Second => Side::First,
        };
        let tax_amount: u128 = self.tax_on(ask, ret, tax)?;
        let outcome = SwapOutcome {
            return_amount: ret,
            spread_amount: spread,
            commission_amount: commission,
            tax_amount,
        };
        match side {
            Side::First => {
                let offer_balance: u128 = checked_add(self.balance0, offer_amount)?;
                self.balance0 = offer_balance;
                self.balance1 = self.balance1 - ret;
            },
            Side::Second => {
                let offer_balance: u128 = checked_add(self.balance1, offer_amount)?;
                self.balance1 = offer_balance;
                self.balance0 = self.balance0 - ret;
            },
        }
        self.price0_cumulative = acc.price0_cumulative;
        self.price1_cumulative = acc.price1_cumulative;
        self.last_update = acc.last_update;
        Ok(outcome)
    }

    /// Switches deposits and swaps off or on, as the registry has it.
    pub fn set_disabled(&mut self, disabled: bool)
        ensures
            *final(self) == (Pool { disabled, ..*old(self) }),
    {
        self.disabled = disabled;
    }

    /// Records the balances that the pool is found to hold at `now`, after
    /// the cumulative prices are brought up to `now` on the balances
    /// recorded before.
    pub fn sync_balances(&mut self, held0: u128, held1: u128, now: u64) -> (r: Result<
        (),
        PoolError,
    >)
        requires
            old(self).wf(),
        ensures
            final(self).wf(),
            match old(self).projected(now) {
                Ok(acc) => r == Ok::<(), PoolError>(()) && *final(self) == (Pool {
                    balance0: held0,
                    balance1: held1,
                    ..old(self).with_accumulators(acc)
                }),
                Err(e) => r == Err::<(), PoolError>(e) && *final(self) == *old(self),
            },
    {
        let acc: Accumulators = self.project_prices(now)?;
        self.balance0 = held0;
        self.balance1 = held1;
        self.price0_cumulative = acc.price0_cumulative;
        self.price1_cumulative = acc.price1_cumulative;
        self.last_update = acc.last_update;
        Ok(())
    }

    /// Starts a ramp of the amplification to `next_amp`, to end at
    /// `next_amp_time`, on behalf of `sender`.
    ///
    /// Only `owner` may do so. The cumulative prices are first brought up to
    /// `now`. A refused ramp leaves the pool as it was.
    pub fn start_changing_amp(
        &mut self,
        sender: &String,
        owner: &String,
        next_amp: u64,
        next_amp_time: u64,
        now: u64,
    ) -> (r: Result<(), PoolError>)
        requires
            old(self).wf(),
        ensures
            final(self).wf(),
            sender@ != owner@ ==> r == Err::<(), PoolError>(PoolError::Unauthorized) && *final(self) == *old(self),
            sender@ == owner@ ==> match old(self).projected(now) {
                Err(e) => r == Err::<(), PoolError>(e) && *final(self) == *old(self),
                Ok(acc) => match ramp_refusal(
                    old(self).amp.amp_at(now as int),
                    old(self).amp.init_amp_time as int,
                    next_amp as int,
                    next_amp_time as int,
                    now as int,
                ) {
                    Some(e) => r == Err::<(), PoolError>(e) && *final(self) == *old(self),
                    None => r == Ok::<(), PoolError>(()) && *final(self) == (Pool {
                        amp: AmpState {
                            init_amp: old(self).amp.amp_at(now as int) as u64,
                            init_amp_time: now,
                            next_amp,
                            next_amp_time,
                        },
                        ..old(self).with_accumulators(acc)
                    }),
                },
            },
    {
        if *sender != *owner {
            return Err(PoolError::Unauthorized);
        }
        let acc: Accumulators = self.project_prices(now)?;
        let mut ramp: AmpState = self.amp;
        ramp.start_ramp(next_amp, next_amp_time, now)?;
        self.amp = ramp;
        self.price0_cumulative = acc.price0_cumulative;
        self.price1_cumulative = acc.price1_cumulative;
        self.last_update = acc.last_update;
        Ok(())
    }

    /// Stops the ramp of the amplification on behalf of `sender`: from `now`
    /// on the amplification stays at the value in force at `now`.
    ///
    /// Only `owner` may do so. The cumulative prices are first brought up to
    /// `now`. A refused call leaves the pool as it was.
    pub fn stop_changing_amp(&mut self, sender: &String, owner: &String, now: u64) -> (r: Result<
        (),
        PoolError,
    >)
        requires
            old(self).wf(),
        ensures
            final(self).wf(),
            sender@ != owner@ ==> r == Err::<(), PoolError>(PoolError::Unauthorized) && *final(self) == *old(self),
            sender@ == owner@ ==> match old(self).projected(now) {
                Err(e) => r == Err::<(), PoolError>(e) && *final(self) == *old(self),
                Ok(acc) => r == Ok::<(), PoolError>(()) && *final(self) == (Pool {
                    amp: AmpState {
                        init_amp: old(self).amp.amp_at(now as int) as u64,
                        init_amp_time: now,
                        next_amp: old(self).amp.amp_at(now as int) as u64,
                        next_amp_time: now,
                    },
                    ..old(self).with_accumulators(acc)
                }),
            },
    {
        if *sender != *owner {
            return Err(PoolError::Unauthorized);
        }
        let acc: Accumulators = self.project_prices(now)?;
        let mut ramp: AmpState = self.amp;
        ramp.stop_ramp(now);
        self.amp = ramp;
        self.price0_cumulative = acc.price0_cumulative;
        self.price1_cumulative = acc.price1_cumulative;
        self.last_update = acc.last_update;
        Ok(())
    }
}

/// Who receives what an operation pays out: the receiver named, or else the
/// sender.
pub fn receiver_or(sender: &String, receiver: Option<String>) -> (r: String)
    ensures
        r@ == match receiver {
            Some(x) => x@,
            None => sender@,
        },
{
    match receiver {
        Some(x) => x,
        None => sender.clone(),
    }
}

/// The order to the share token to create `amount` shares for `recipient`.
#[derive(Clone, Debug, PartialEq, Eq)]
pub struct MintMsg {
    pub recipient: String,
    pub amount: u128,
}

/// What a deposit answers with: the shares created for the receiver, the
/// order to create them, and the record of the deposit.
#[derive(Clone, Debug, PartialEq, Eq)]
pub struct ProvideResponse {
    pub share: u128,
    pub mint: MintMsg,
    pub attributes: Vec<Attribute>,
}

/// The record of a deposit: the action, who sent it, who receives the
/// shares, the two amounts with their assets, and the shares created.
pub open spec fn provide_record(
    sender: Seq<char>,
    receiver: Seq<char>,
    asset0: Seq<char>,
    amount0: u128,
    asset1: Seq<char>,
    amount1: u128,
    share: u128,
) -> Seq<(Seq<char>, Seq<char>)> {
    seq![
        ("action"@, "provide_liquidity"@),
        ("sender"@, sender),
        ("receiver"@, receiver),
        (
            "assets"@,
            decimal_digits(amount0 as nat) + asset0 + ", "@ + decimal_digits(amount1 as nat)
                + asset1,
        ),
        ("share"@, decimal_digits(share as nat)),
    ]
}

impl MintMsg {
    /// The lines under which the creation of the shares is recorded.
    pub fn record(&self) -> (r: Vec<Attribute>)
        ensures
            attribute_texts(r@) == seq![
                ("action"@, "mint"@),
                ("to"@, self.recipient@),
                ("amount"@, decimal_digits(self.amount as nat)),
            ],
    {
        let mut attributes: Vec<Attribute> = Vec::new();
        attributes.push(attribute("action", String::from_str("mint")));
        attributes.push(attribute("to", self.recipient.clone()));
        attributes.push(attribute("amount", decimal_string(self.amount)));
        assert(attribute_texts(attributes@) =~= seq![
            ("action"@, "mint"@),
            ("to"@, self.recipient@),
            ("amount"@, decimal_digits(self.amount as nat)),
        ]);
        attributes
    }
}

impl Pool {
    /// Deposits `amount0` and `amount1` on behalf of `sender`, as
    /// `provide_liquidity` does, and answers with the order to create the
    /// shares for `receiver`, or for the sender where none is named, and
    /// with the record of the deposit.
    pub fn provide_liquidity_for(
        &mut self,
        sender: &String,
        receiver: Option<String>,
        amount0: u128,
        amount1: u128,
        tolerance: Option<Decimal>,
        min_share: Option<u128>,
        now: u64,
    ) -> (r: Result<ProvideResponse, PoolError>)
        requires
            old(self).wf(),
        ensures
            final(self).wf(),
            match old(self).provided(amount0, amount1, tolerance, min_share, now) {
                Ok((pool, share)) => *final(self) == pool && (r matches Ok(resp) && resp.share
                    == share && resp.mint.amount == share && resp.mint.recipient@ == (match receiver {
                    Some(x) => x@,
                    None => sender@,
                }) && attribute_texts(resp.attributes@) == provide_record(
                    sender@,
                    resp.mint.recipient@,
                    old(self).asset0@.text(),
                    amount0,
                    old(self).asset1@.text(),
                    amount1,
                    share,
                )),
                Err(e) => *final(self) == *old(self) && (r matches Err(x) && x == e),
            },
    {
        let share: u128 = self.provide_liquidity(amount0, amount1, tolerance, min_share, now)?;
        let recipient: String = receiver_or(sender, receiver);
        let first = Asset { info: self.asset0.duplicate(), amount: amount0 };
        let second = Asset { info: self.asset1.duplicate(), amount: amount1 };
        let mut assets: String = first.to_string();
        assets.append(", ");
        let second_text: String = second.to_string();
        assets.append(second_text.as_str());
        assert(self.asset0@ == old(self).asset0@ && self.asset1@ == old(self).asset1@);
        assert(assets@ =~= decimal_digits(amount0 as nat) + old(self).asset0@.text() + ", "@
            + decimal_digits(amount1 as nat) + old(self).asset1@.text());
        let mut attributes: Vec<Attribute> = Vec::new();
        attributes.push(attribute("action", String::from_str("provide_liquidity")));
        attributes.push(attribute("sender", sender.clone()));
        attributes.push(attribute("receiver", recipient.clone()));
        attributes.push(attribute("assets", assets));
        attributes.push(attribute("share", decimal_string(share)));
        assert(attribute_texts(attributes@) =~= provide_record(
            sender@,
            recipient@,
            old(self).asset0@.text(),
            amount0,
            old(self).asset1@.text(),
            amount1,
            share,
        ));
        Ok(ProvideResponse { share, mint: MintMsg { recipient, amount: share }, attributes })
    }
}

/// A change of the amplification: start a ramp, or stop the one under way.
#[derive(Clone, Copy, Debug, PartialEq, Eq, Structural)]
pub enum StablePoolUpdateParams {
    StartChangingAmp { next_amp: u64, next_amp_time: u64 },
    StopChangingAmp,
}

/// What a pool can be asked to do.
#[derive(Clone, Debug, PartialEq, Eq)]
pub enum ExecuteMsg {
    /// Deposit the two amounts; the shares go to `receiver`, or to the
    /// sender where none is named.
    ProvideLiquidity {
        amount0: u128,
        amount1: u128,
        slippage_tolerance: Option<Decimal>,
        min_share: Option<u128>,
        receiver: Option<String>,
    },
    /// Give shares back for their part of the two balances.
    WithdrawLiquidity { share_amount: u128 },
    /// Swap an amount of one asset for the other; the return goes to `to`,
    /// or to the sender where none is named.
    Swap {
        offer_asset: AssetInfo,
        offer_amount: u128,
        belief_price: Option<Decimal>,
        max_spread: Option<Decimal>,
        to: Option<String>,
    },
    /// Change the amplification.
    UpdateConfig { params: StablePoolUpdateParams },
}

/// What a pool answers with.
#[derive(Clone, Debug, PartialEq, Eq)]
pub enum ExecuteResponse {
    Provided(ProvideResponse),
    Withdrawn { refund0: u128, refund1: u128 },
    Swapped { outcome: SwapOutcome, receiver: String },
    ConfigUpdated,
}

impl Pool {
    /// The pool after a change of the amplification asked for by `sender`
    /// at `now`; or why the change is refused. Only `owner` may ask for it.
    /// The cumulative prices are brought up to `now` first.
    pub open spec fn amp_changed(
        self,
        sender: Seq<char>,
        owner: Seq<char>,
        params: StablePoolUpdateParams,
        now: u64,
    ) -> Result<Pool, PoolError> {
        if sender != owner {
            Err(PoolError::Unauthorized)
        } else {
            match self.projected(now) {
                Err(e) => Err(e),
                Ok(acc) => match params {
                    StablePoolUpdateParams::StartChangingAmp { next_amp, next_amp_time } => {
                        match ramp_refusal(
                            self.amp.amp_at(now as int),
                            self.amp.init_amp_time as int,
                            next_amp as int,
                            next_amp_time as int,
                            now as int,
                        ) {
                            Some(e) => Err(e),
                            None => Ok(
                                Pool {
                                    amp: AmpState {
                                        init_amp: self.amp.amp_at(now as int) as u64,
                                        init_amp_time: now,
                                        next_amp,
                                        next_amp_time,
                                    },
                                    ..self.with_accumulators(acc)
                                },
                            ),
                        }
                    },
                    StablePoolUpdateParams::StopChangingAmp => Ok(
                        Pool {
                            amp: AmpState {
                                init_amp: self.amp.amp_at(now as int) as u64,
                                init_amp_time: now,
                                next_amp: self.amp.amp_at(now as int) as u64,
                                next_amp_time: now,
                            },
                            ..self.with_accumulators(acc)
                        },
                    ),
                },
            }
        }
    }
}

/// Creates an empty pool, as `Pool::new` does.
pub fn instantiate(
    asset0: AssetInfo,
    asset1: AssetInfo,
    precision0: u8,
    precision1: u8,
    amp: u64,
    fee_bps: u64,
    min_liquidity: u128,
    now: u64,
) -> (r: Result<Pool, PoolError>)
    ensures
        match creation_refusal(asset0@, asset1@, precision0, precision1, amp, fee_bps) {
            Some(e) => r == Err::<Pool, PoolError>(e),
            None => r == Ok::<Pool, PoolError>(
                Pool {
                    asset0,
                    asset1,
                    precision0,
                    precision1,
                    fee_bps,
                    min_liquidity,
                    disabled: false,
                    balance0: 0,
                    balance1: 0,
                    share_supply: 0,
                    amp: AmpState {
                        init_amp: amp,
                        init_amp_time: now,
                        next_amp: amp,
                        next_amp_time: now,
                    },
                    price0_cumulative: 0,
                    price1_cumulative: 0,
                    last_update: now,
                },
            ),
        },
        r matches Ok(p) ==> p.wf(),
{
    Pool::new(asset0, asset1, precision0, precision1, amp, fee_bps, min_liquidity, now)
}

/// Changes the amplification of a pool on behalf of `sender` at `now`:
/// starts a ramp, or stops the one under way. Only `owner` may do so. A
/// change that is refused leaves the pool as it was.
pub fn update_config(
    pool: &mut Pool,
    sender: &String,
    owner: &String,
    params: StablePoolUpdateParams,
    now: u64,
) -> (r: Result<(), PoolError>)
    requires
        old(pool).wf(),
    ensures
        final(pool).wf(),
        match old(pool).amp_changed(sender@, owner@, params, now) {
            Ok(p) => r == Ok::<(), PoolError>(()) && *final(pool) == p,
            Err(e) => r == Err::<(), PoolError>(e) && *final(pool) == *old(pool),
        },
{
    match params {
        StablePoolUpdateParams::StartChangingAmp { next_amp, next_amp_time } => {
            pool.start_changing_amp(sender, owner, next_amp, next_amp_time, now)
        },
        StablePoolUpdateParams::StopChangingAmp => pool.stop_changing_amp(sender, owner, now),
    }
}

/// Performs on a pool what `sender` asks for at `now`: a deposit, a
/// withdrawal, a swap or a change of the amplification, each as the
/// operation of that name has it. `owner` is who may change the
/// amplification, and `tax` the tax on transfers of the asset that a swap
/// pays out, if it is a taxed native currency. What is refused leaves the
/// pool as it was.
pub fn execute(
    pool: &mut Pool,
    sender: &String,
    owner: &String,
    msg: ExecuteMsg,
    tax: Option<Tax>,
    now: u64,
) -> (r: Result<ExecuteResponse, PoolError>)
    requires
        old(pool).wf(),
    ensures
        final(pool).wf(),
        match msg {
            ExecuteMsg::ProvideLiquidity {
                amount0,
                amount1,
                slippage_tolerance,
                min_share,
                receiver,
            } => match old(pool).provided(amount0, amount1, slippage_tolerance, min_share, now) {
                Ok((p, share)) => *final(pool) == p && (r matches Ok(
                    ExecuteResponse::Provided(resp),
                ) && resp.share == share && resp.mint.amount == share && resp.mint.recipient@ == (
                match receiver {
                    Some(x) => x@,
                    None => sender@,
                }) && attribute_texts(resp.attributes@) == provide_record(
                    sender@,
                    resp.mint.recipient@,
                    old(pool).asset0@.text(),
                    amount0,
                    old(pool).asset1@.text(),
                    amount1,
                    share,
                )),
                Err(e) => *final(pool) == *old(pool) && (r matches Err(x) && x == e),
            },
            ExecuteMsg::WithdrawLiquidity { share_amount } => match old(pool).withdrawn(
                share_amount,
                now,
            ) {
                Ok((p, r0, r1)) => *final(pool) == p && (r matches Ok(
                    ExecuteResponse::Withdrawn { refund0, refund1 },
                ) && refund0 == r0 && refund1 == r1),
                Err(e) => *final(pool) == *old(pool) && (r matches Err(x) && x == e),
            },
            ExecuteMsg::Swap { offer_asset, offer_amount, belief_price, max_spread, to } => match old(
                pool,
            ).swapped(offer_asset@, offer_amount, belief_price, max_spread, tax, now) {
                Ok((p, outcome)) => *final(pool) == p && (r matches Ok(
                    ExecuteResponse::Swapped { outcome: o, receiver },
                ) && o == outcome && receiver@ == (match to {
                    Some(x) => x@,
                    None => sender@,
                })),
                Err(e) => *final(pool) == *old(pool) && (r matches Err(x) && x == e),
            },
            ExecuteMsg::UpdateConfig { params } => match old(pool).amp_changed(
                sender@,
                owner@,
                params,
                now,
            ) {
                Ok(p) => *final(pool) == p && r matches Ok(ExecuteResponse::ConfigUpdated),
                Err(e) => *final(pool) == *old(pool) && (r matches Err(x) && x == e),
            },
        },
{
    match msg {
        ExecuteMsg::ProvideLiquidity {
            amount0,
            amount1,
            slippage_tolerance,
            min_share,
            receiver,
        } => {
            let resp: ProvideResponse = pool.provide_liquidity_for(
                sender,
                receiver,
                amount0,
                amount1,
                slippage_tolerance,
                min_share,
                now,
            )?;
            Ok(ExecuteResponse::Provided(resp))
        },
        ExecuteMsg::WithdrawLiquidity { share_amount } => {
            let (refund0, refund1) = pool.withdraw_liquidity(share_amount, now)?;
            Ok(ExecuteResponse::Withdrawn { refund0, refund1 })
        },
        ExecuteMsg::Swap { offer_asset, offer_amount, belief_price, max_spread, to } => {
            let outcome: SwapOutcome = pool.swap(
                &offer_asset,
                offer_amount,
                belief_price,
                max_spread,
                tax,
                now,
            )?;
            Ok(ExecuteResponse::Swapped { outcome, receiver: receiver_or(sender, to) })
        },
        ExecuteMsg::UpdateConfig { params } => {
            update_config(pool, sender, owner, params, now)?;
            Ok(ExecuteResponse::ConfigUpdated)
        },
    }
}

} // verus!
