use crate::error::PoolError;
use crate::math::{MAX_AMP, MAX_AMP_CHANGE, MIN_AMP_CHANGING_TIME};
use vstd::prelude::*;

verus! {

/// A ramp of the amplification from `init_amp` at `init_amp_time` to
/// `next_amp` at `next_amp_time`, linear in between.
#[derive(Clone, Copy, Debug, PartialEq, Eq, Structural)]
pub struct AmpState {
    pub init_amp: u64,
    pub init_amp_time: u64,
    pub next_amp: u64,
    pub next_amp_time: u64,
}

/// The part of `range` covered after `elapsed` of `total` seconds, rounded down.
pub open spec fn ramp_progress(range: int, elapsed: int, total: int) -> int {
    range * elapsed / total
}

/// Why a ramp to `next_amp`, ending at `next_amp_time`, may not start at
/// `now` when the amplification is `current` and the last ramp started at
/// `init_amp_time`; `None` when it may.
pub open spec fn ramp_refusal(
    current: int,
    init_amp_time: int,
    next_amp: int,
    next_amp_time: int,
    now: int,
) -> Option<PoolError> {
    if next_amp == 0 || next_amp > MAX_AMP {
        Some(PoolError::IncorrectAmp)
    } else if next_amp * MAX_AMP_CHANGE < current || next_amp > current * MAX_AMP_CHANGE {
        Some(PoolError::MaxAmpChangeAssertion)
    } else if now < init_amp_time + MIN_AMP_CHANGING_TIME || next_amp_time < now
        + MIN_AMP_CHANGING_TIME {
        Some(PoolError::MinAmpChangingTimeAssertion)
    } else {
        None
    }
}

/// Within `0 <= elapsed <= total`, the progress of a ramp lies between
/// zero and the whole range and does not fall as time goes on.
pub proof fn lemma_ramp_progress(range: int, e1: int, e2: int, total: int)
    requires
        range >= 0,
        0 <= e1 <= e2 <= total,
        total > 0,
    ensures
        0 <= ramp_progress(range, e1, total) <= ramp_progress(range, e2, total) <= range,
        ramp_progress(range, 0, total) == 0,
        ramp_progress(range, total, total) == range,
{
    assert(0 <= range * e1 <= range * e2 <= range * total) by (nonlinear_arith)
        requires
            range >= 0,
            0 <= e1 <= e2 <= total,
    ;
    vstd::arithmetic::div_mod::lemma_div_is_ordered(0, range * e1, total);
    vstd::arithmetic::div_mod::lemma_div_is_ordered(range * e1, range * e2, total);
    vstd::arithmetic::div_mod::lemma_div_is_ordered(range * e2, range * total, total);
    vstd::arithmetic::div_mod::lemma_div_multiples_vanish(range, total);
    assert(range * total == total * range) by (nonlinear_arith);
    assert(range * 0 == 0) by (nonlinear_arith);
    assert(0int / total == 0) by (nonlinear_arith)
        requires
            total > 0,
    ;
}

impl AmpState {
    /// A valid state: both endpoints lie in `1..=MAX_AMP`, the ramp does not
    /// end before it starts, and a ramp of no length changes nothing.
    pub open spec fn wf(self) -> bool {
        &&& 1 <= self.init_amp <= MAX_AMP
        &&& 1 <= self.next_amp <= MAX_AMP
        &&& self.init_amp_time <= self.next_amp_time
        &&& self.init_amp_time == self.next_amp_time ==> self.init_amp == self.next_amp
    }

    /// Whether the state is valid.
    pub fn is_valid(&self) -> (r: bool)
        ensures
            r == self.wf(),
    {
        1 <= self.init_amp && self.init_amp <= MAX_AMP && 1 <= self.next_amp && self.next_amp
            <= MAX_AMP && self.init_amp_time <= self.next_amp_time && (self.init_amp_time
            != self.next_amp_time || self.init_amp == self.next_amp)
    }

    /// The amplification in force at `now`: the nearer endpoint outside the
    /// ramp, and inside it the initial value moved towards the next one in
    /// proportion to the time elapsed, rounded towards the initial value.
    pub open spec fn amp_at(self, now: int) -> int {
        if now >= self.next_amp_time {
            self.next_amp as int
        } else if now <= self.init_amp_time {
            self.init_amp as int
        } else if self.next_amp >= self.init_amp {
            self.init_amp + ramp_progress(
                self.next_amp - self.init_amp,
                now - self.init_amp_time,
                self.next_amp_time - self.init_amp_time,
            )
        } else {
            self.init_amp - ramp_progress(
                self.init_amp - self.next_amp,
                now - self.init_amp_time,
                self.next_amp_time - self.init_amp_time,
            )
        }
    }

    /// A state that holds `amp` from `now` on.
    pub fn new(amp: u64, now: u64) -> (r: Result<AmpState, PoolError>)
        ensures
            1 <= amp <= MAX_AMP ==> r == Ok::<AmpState, PoolError>(
                AmpState { init_amp: amp, init_amp_time: now, next_amp: amp, next_amp_time: now },
            ),
            !(1 <= amp <= MAX_AMP) ==> r == Err::<AmpState, PoolError>(PoolError::IncorrectAmp),
            r matches Ok(s) ==> s.wf() && forall|t: int| s.amp_at(t) == amp,
    {
        if amp == 0 || amp > MAX_AMP {
            return Err(PoolError::IncorrectAmp);
        }
        Ok(AmpState { init_amp: amp, init_amp_time: now, next_amp: amp, next_amp_time: now })
    }

    /// The amplification in force at `now`.
    pub fn effective_amp(&self, now: u64) -> (r: u64)
        requires
            self.wf(),
        ensures
            r == self.amp_at(now as int),
            1 <= r <= MAX_AMP,
    {
        proof {
            self.lemma_amp_bounds(now as int);
        }
        if now >= self.next_amp_time {
            self.next_amp
        } else if now <= self.init_amp_time {
            self.init_amp
        } else {
            let elapsed: u128 = (now - self.init_amp_time) as u128;
            let total: u128 = (self.next_amp_time - self.init_amp_time) as u128;
            if self.next_amp >= self.init_amp {
                let range: u128 = (self.next_amp - self.init_amp) as u128;
                proof {
                    lemma_ramp_progress(range as int, elapsed as int, elapsed as int, total as int);
                    assert(range * elapsed <= 1_000_000 * 0xffff_ffff_ffff_ffff) by (nonlinear_arith)
                        requires
                            0 <= range <= 1_000_000,
                            0 <= elapsed <= 0xffff_ffff_ffff_ffff,
                    ;
                }
                let step: u128 = range * elapsed / total;
                self.init_amp + (step as u64)
            } else {
                let range: u128 = (self.init_amp - self.next_amp) as u128;
                proof {
                    lemma_ramp_progress(range as int, elapsed as int, elapsed as int, total as int);
                    assert(range * elapsed <= 1_000_000 * 0xffff_ffff_ffff_ffff) by (nonlinear_arith)
                        requires
                            0 <= range <= 1_000_000,
                            0 <= elapsed <= 0xffff_ffff_ffff_ffff,
                    ;
                }
                let step: u128 = range * elapsed / total;
                self.init_amp - (step as u64)
            }
        }
    }

    /// The amplification in force always lies between the two endpoints.
    pub proof fn lemma_amp_bounds(self, now: int)
        requires
            self.wf(),
        ensures
            1 <= self.amp_at(now) <= MAX_AMP,
            self.init_amp <= self.next_amp ==> self.init_amp <= self.amp_at(now) <= self.next_amp,
            self.init_amp >= self.next_amp ==> self.next_amp <= self.amp_at(now) <= self.init_amp,
    {
        if self.init_amp_time < now < self.next_amp_time {
            let e = now - self.init_amp_time;
            let t = self.next_amp_time - self.init_amp_time;
            if self.next_amp >= self.init_amp {
                lemma_ramp_progress(self.next_amp - self.init_amp, e, e, t);
            } else {
                lemma_ramp_progress(self.init_amp - self.next_amp, e, e, t);
            }
        }
    }

    /// The amplification is the initial value at the start of the ramp and
    /// the next value at its end, and between two instants inside the ramp
    /// it moves towards the next value or stays.
    pub proof fn lemma_ramp_endpoints_and_monotonic(self, t1: int, t2: int)
        requires
            self.wf(),
            self.init_amp_time <= t1 <= t2 <= self.next_amp_time,
        ensures
            self.amp_at(self.init_amp_time as int) == self.init_amp,
            self.amp_at(self.next_amp_time as int) == self.next_amp,
            self.init_amp <= self.next_amp ==> self.amp_at(t1) <= self.amp_at(t2),
            self.init_amp >= self.next_amp ==> self.amp_at(t1) >= self.amp_at(t2),
    {
        self.lemma_amp_bounds(t1);
        self.lemma_amp_bounds(t2);
        if self.init_amp_time < t1 && t2 < self.next_amp_time {
            let t = self.next_amp_time - self.init_amp_time;
            if self.next_amp >= self.init_amp {
                lemma_ramp_progress(
                    self.next_amp - self.init_amp,
                    t1 - self.init_amp_time,
                    t2 - self.init_amp_time,
                    t,
                );
            } else {
                lemma_ramp_progress(
                    self.init_amp - self.next_amp,
                    t1 - self.init_amp_time,
                    t2 - self.init_amp_time,
                    t,
                );
            }
        }
    }

    /// Starts a ramp to `next_amp` that ends at `next_amp_time`.
    ///
    /// The ramp starts from the amplification in force at `now`. It is
    /// refused, and the state left as it was, when `next_amp` is zero or
    /// above `MAX_AMP`, when it differs from the amplification in force by
    /// more than the factor `MAX_AMP_CHANGE`, when the last ramp started
    /// less than `MIN_AMP_CHANGING_TIME` ago, or when it would end less than
    /// `MIN_AMP_CHANGING_TIME` from now.
    pub fn start_ramp(&mut self, next_amp: u64, next_amp_time: u64, now: u64) -> (r: Result<
        (),
        PoolError,
    >)
        requires
            old(self).wf(),
        ensures
            final(self).wf(),
            match ramp_refusal(
                old(self).amp_at(now as int),
                old(self).init_amp_time as int,
                next_amp as int,
                next_amp_time as int,
                now as int,
            ) {
                Some(e) => r == Err::<(), PoolError>(e) && *final(self) == *old(self),
                None => r == Ok::<(), PoolError>(()) && *final(self) == (AmpState {
                    init_amp: old(self).amp_at(now as int) as u64,
                    init_amp_time: now,
                    next_amp,
                    next_amp_time,
                }),
            },
    {
        if next_amp == 0 || next_amp > MAX_AMP {
            return Err(PoolError::IncorrectAmp);
        }
        let current: u64 = self.effective_amp(now);
        if next_amp * MAX_AMP_CHANGE < current || next_amp > current * MAX_AMP_CHANGE {
            return Err(PoolError::MaxAmpChangeAssertion);
        }
        if (now as u128) < (self.init_amp_time as u128) + (MIN_AMP_CHANGING_TIME as u128) || (
        next_amp_time as u128) < (now as u128) + (MIN_AMP_CHANGING_TIME as u128) {
            return Err(PoolError::MinAmpChangingTimeAssertion);
        }
        self.init_amp = current;
        self.init_amp_time = now;
        self.next_amp = next_amp;
        self.next_amp_time = next_amp_time;
        Ok(())
    }

    /// Stops a ramp: from `now` on the amplification stays at the value in
    /// force at `now`.
    pub fn stop_ramp(&mut self, now: u64)
        requires
            old(self).wf(),
        ensures
            final(self).wf(),
            *final(self) == (AmpState {
                init_amp: old(self).amp_at(now as int) as u64,
                init_amp_time: now,
                next_amp: old(self).amp_at(now as int) as u64,
                next_amp_time: now,
            }),
            forall|t: int| final(self).amp_at(t) == old(self).amp_at(now as int),
    {
        let current: u64 = self.effective_amp(now);
        self.init_amp = current;
        self.init_amp_time = now;
        self.next_amp = current;
        self.next_amp_time = now;
    }
}

/// A ramp is refused whenever its target is above the ceiling, whenever it
/// changes the amplification in force by more than the allowed factor, and
/// whenever it is asked for sooner than the minimum time after the start of
/// the last ramp.
pub proof fn lemma_ramp_bounds(state: AmpState, next_amp: int, next_amp_time: int, now: int)
    requires
        state.wf(),
        next_amp >= 0,
    ensures
        next_amp > MAX_AMP ==> ramp_refusal(
            state.amp_at(now),
            state.init_amp_time as int,
            next_amp,
            next_amp_time,
            now,
        ).is_some(),
        next_amp > state.amp_at(now) * MAX_AMP_CHANGE || next_amp * MAX_AMP_CHANGE < state.amp_at(
            now,
        ) ==> ramp_refusal(
            state.amp_at(now),
            state.init_amp_time as int,
            next_amp,
            next_amp_time,
            now,
        ).is_some(),
        now < state.init_amp_time + MIN_AMP_CHANGING_TIME ==> ramp_refusal(
            state.amp_at(now),
            state.init_amp_time as int,
            next_amp,
            next_amp_time,
            now,
        ).is_some(),
{
}

} // verus!
