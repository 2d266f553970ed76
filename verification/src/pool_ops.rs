//! Position management on a pool: opening, fee withdrawal, closing.
//!
//! Every operation validates and computes first, and only then commits its
//! mutations, so a reported error leaves the pool exactly as it was.

use vstd::prelude::*;
use vstd::arithmetic::power2::*;

use crate::errors::ErrorKind;
use crate::fp::u128x128::U128X128;
use crate::fp::u192x64::U192X64;
use crate::fp::u256x256::U256X256;
use crate::fp::signed::{I128X128, I192X64, Signed};
use crate::pool::{PoolV0, RangeCmp, Amount, balance_one_side, spec_balance_one_side,
    ufp_ceil_to_amount, lemma_sum_update, lemma_sum_same, spec_sum_left, spec_sum_right};
use crate::pool_types::{TickStateV0, EffectiveSqrtPrice, PositionV0};
use crate::tick::{Tick, EffTick, MIN_TICK, MAX_TICK, MIN_EFF_TICK, MAX_EFF_TICK};
use crate::util_types::{Side, PositionInit, Range};

verus! {

/// Token amounts locked by `net_liquidity` in the range `(tick_low,
/// tick_high)` at the given effective prices.
pub fn eval_position_balance_ufp(
    net_liquidity: &U192X64,
    tick_low: &Tick,
    tick_high: &Tick,
    eff_sqrtprice_left: &U128X128,
    eff_sqrtprice_right: &U128X128,
    fee_level: u8,
) -> (r: Result<(U256X256, U256X256), ErrorKind>)
    requires
        net_liquidity.wf(),
        tick_low.spec_valid(),
        tick_high.spec_valid(),
        eff_sqrtprice_left.wf(),
        eff_sqrtprice_right.wf(),
        fee_level < 8,
    ensures
        match r {
            Ok((l, rr)) => {
                &&& l.wf()
                &&& rr.wf()
                &&& l.as_nat() == spec_balance_one_side(
                    net_liquidity.as_nat(),
                    crate::tick::spec_spot_sqrtprice(
                        crate::tick::spec_eff_tick_index(
                            tick_low.spec_index(),
                            fee_level as int,
                            Side::Left,
                        ),
                    ),
                    crate::tick::spec_spot_sqrtprice(
                        crate::tick::spec_eff_tick_index(
                            tick_high.spec_index(),
                            fee_level as int,
                            Side::Left,
                        ),
                    ),
                    eff_sqrtprice_left.as_nat(),
                )
                &&& rr.as_nat() == spec_balance_one_side(
                    net_liquidity.as_nat(),
                    crate::tick::spec_spot_sqrtprice(
                        crate::tick::spec_eff_tick_index(
                            tick_high.spec_index(),
                            fee_level as int,
                            Side::Right,
                        ),
                    ),
                    crate::tick::spec_spot_sqrtprice(
                        crate::tick::spec_eff_tick_index(
                            tick_low.spec_index(),
                            fee_level as int,
                            Side::Right,
                        ),
                    ),
                    eff_sqrtprice_right.as_nat(),
                )
            },
            Err(e) => e == ErrorKind::ConvOverflow,
        },
{
    let lower_left = tick_low.eff_sqrtprice(fee_level, Side::Left);
    let upper_left = tick_high.eff_sqrtprice(fee_level, Side::Left);
    let lower_right = tick_high.eff_sqrtprice(fee_level, Side::Right);
    let upper_right = tick_low.eff_sqrtprice(fee_level, Side::Right);
    let left = match balance_one_side(net_liquidity, &lower_left, &upper_left, eff_sqrtprice_left) {
        Ok(v) => v,
        Err(e) => {
            return Err(e);
        },
    };
    let right = match balance_one_side(
        net_liquidity,
        &lower_right,
        &upper_right,
        eff_sqrtprice_right,
    ) {
        Ok(v) => v,
        Err(e) => {
            return Err(e);
        },
    };
    Ok((left, right))
}

impl PoolV0 {
    /// Nearest active tick strictly beyond `begin_excluding` in the swap
    /// direction `side`.
    pub fn find_next_active_tick_on_level(&self, begin_excluding: &Tick, fee_level: u8, side: Side)
        -> (r: Option<Tick>)
        requires
            self.wf(),
            fee_level < 8,
        ensures
            match r {
                Some(t) => t.spec_valid() && self.tick_states@[fee_level as int].spec_contains(
                    t.spec_index(),
                ),
                None => true,
            },
    {
        let key = match side {
            Side::Left => self.tick_states[fee_level as usize].next_above(begin_excluding.index()),
            Side::Right => self.tick_states[fee_level as usize].next_below(
                begin_excluding.index(),
            ),
        };
        match key {
            Some(k) => {
                proof {
                    assert(self.tick_states@[fee_level as int].spec_contains(k as int));
                }
                Some(Tick { index: k })
            },
            None => None,
        }
    }

    /// Where the current price of `fee_level` stands relative to a tick
    /// range, judged by the next-active-tick caches.
    pub fn cmp_spot_price_to_position_range(&self, fee_level: u8, tick_low: &Tick, tick_high: &Tick)
        -> (r: Result<RangeCmp, ErrorKind>)
        requires
            self.wf(),
            fee_level < 8,
            tick_low.spec_valid(),
            tick_high.spec_valid(),
        ensures
            match r {
                Ok(_) => true,
                Err(e) => e == ErrorKind::InternalLogicError || e
                    == ErrorKind::InternalTickNotFound,
            },
    {
        let nal = &self.next_active_ticks_left[fee_level as usize];
        let nar = &self.next_active_ticks_right[fee_level as usize];
        match (nal, nar) {
            (Some(next_left), Some(next_right)) => {
                if tick_low.index() <= next_right.index() && next_left.index()
                    <= tick_high.index() {
                    Ok(RangeCmp::Within)
                } else if tick_high.index() <= next_right.index() {
                    Ok(RangeCmp::Above)
                } else if next_left.index() <= tick_low.index() {
                    Ok(RangeCmp::Below)
                } else {
                    Err(ErrorKind::InternalLogicError)
                }
            },
            (Some(next_left), None) => {
                if next_left.index() <= tick_low.index() {
                    Ok(RangeCmp::Below)
                } else {
                    Err(ErrorKind::InternalTickNotFound)
                }
            },
            (None, Some(next_right)) => {
                if tick_high.index() <= next_right.index() {
                    Ok(RangeCmp::Above)
                } else {
                    Err(ErrorKind::InternalTickNotFound)
                }
            },
            (None, None) => Err(ErrorKind::InternalTickNotFound),
        }
    }

    /// New next-active-tick caches of a level after activating `new_tick`.
    /// The caches keep the invariant that they are the nearest ticks
    /// strictly beyond the current price in each direction.
    pub fn eval_next_active_ticks(&self, new_tick: &Tick, fee_level: u8) -> (r: Result<
        (Option<Tick>, Option<Tick>),
        ErrorKind,
    >)
        requires
            self.wf(),
            fee_level < 8,
            new_tick.spec_valid(),
        ensures
            match r {
                Ok((l, rr)) => {
                    &&& match l {
                        Some(t) => t.spec_valid(),
                        None => true,
                    }
                    &&& match rr {
                        Some(t) => t.spec_valid(),
                        None => true,
                    }
                },
                Err(e) => e == ErrorKind::InternalLogicError,
            },
    {
        let lvl = fee_level as usize;
        let eff_left = self.eff_sqrtprice(Side::Left, fee_level).clone();
        let eff_right = self.eff_sqrtprice(Side::Right, fee_level).clone();
        let tick_left = new_tick.eff_sqrtprice(fee_level, Side::Left);
        let tick_right = new_tick.eff_sqrtprice(fee_level, Side::Right);
        let cur_left = &self.next_active_ticks_left[lvl];
        let cur_right = &self.next_active_ticks_right[lvl];
        if eff_left.lt(&tick_left) {
            // the new tick lies ahead of a leftward swap
            if eff_right.lt(&tick_right) {
                return Err(ErrorKind::InternalLogicError);
            }
            let better: bool = match cur_right {
                Some(t) => t.index() < new_tick.index(),
                None => true,
            };
            if !better {
                return Err(ErrorKind::InternalLogicError);
            }
            let new_left: Option<Tick> = match cur_left {
                Some(t) => {
                    if new_tick.index() < t.index() {
                        Some(*new_tick)
                    } else {
                        Some(*t)
                    }
                },
                None => Some(*new_tick),
            };
            Ok((new_left, *cur_right))
        } else {
            if tick_right.lt(&eff_right) {
                return Err(ErrorKind::InternalLogicError);
            }
            let is_cur_left: bool = match cur_left {
                Some(t) => t.index() == new_tick.index(),
                None => false,
            };
            if is_cur_left {
                if eff_left.eq_val(&tick_left) {
                    Ok((*cur_left, *cur_right))
                } else {
                    Err(ErrorKind::InternalLogicError)
                }
            } else {
                let new_right: Option<Tick> = match cur_right {
                    Some(t) => {
                        if new_tick.index() > t.index() {
                            Some(*new_tick)
                        } else {
                            Some(*t)
                        }
                    },
                    None => Some(*new_tick),
                };
                Ok((*cur_left, new_right))
            }
        }
    }

    /// Global LP fee per unit of fee liquidity of one side, accumulated
    /// over the levels at or above `fee_level`.
    pub fn acc_lp_fee_per_fee_liquidity(&self, side: Side, fee_level: u8) -> (r: Result<
        I128X128,
        ErrorKind,
    >)
        requires
            self.wf(),
            fee_level < 8,
        ensures
            match r {
                Ok(v) => v.valid(),
                Err(e) => e == ErrorKind::InternalLogicError,
            },
    {
        let mut acc = Signed::<U128X128>::zero();
        let mut l: usize = fee_level as usize;
        while l < 8
            invariant
                self.wf(),
                acc.valid(),
                l <= 8,
            decreases 8 - l,
        {
            let term = match side {
                Side::Left => &self.acc_lp_fees_per_fee_liquidity[l].0,
                Side::Right => &self.acc_lp_fees_per_fee_liquidity[l].1,
            };
            acc = match acc.checked_add(term) {
                Some(v) => v,
                None => {
                    return Err(ErrorKind::InternalLogicError);
                },
            };
            l = l + 1;
        }
        Ok(acc)
    }

    /// LP fee per fee liquidity accumulated inside a tick range, derived
    /// from the two boundary "outside" snapshots and the price position.
    pub fn acc_range_lp_fees_per_fee_liquidity(
        &self,
        fee_level: u8,
        tick_low: &Tick,
        tick_high: &Tick,
    ) -> (r: Result<(I128X128, I128X128), ErrorKind>)
        requires
            self.wf(),
            fee_level < 8,
            tick_low.spec_valid(),
            tick_high.spec_valid(),
        ensures
            match r {
                Ok((a, b)) => a.valid() && b.valid(),
                Err(_) => true,
            },
    {
        let lvl = fee_level as usize;
        let lower_outside: (I128X128, I128X128) = match self.tick_states[lvl].get(
            tick_low.index(),
        ) {
            Some(st) => st.acc_lp_fees_per_fee_liquidity_outside,
            None => (Signed::<U128X128>::zero(), Signed::<U128X128>::zero()),
        };
        let upper_outside: (I128X128, I128X128) = match self.tick_states[lvl].get(
            tick_high.index(),
        ) {
            Some(st) => st.acc_lp_fees_per_fee_liquidity_outside,
            None => (Signed::<U128X128>::zero(), Signed::<U128X128>::zero()),
        };
        let cmp = match self.cmp_spot_price_to_position_range(fee_level, tick_low, tick_high) {
            Ok(c) => c,
            Err(e) => {
                return Err(e);
            },
        };
        match cmp {
            RangeCmp::Within => {
                let global_left = match self.acc_lp_fee_per_fee_liquidity(Side::Left, fee_level) {
                    Ok(v) => v,
                    Err(e) => {
                        return Err(e);
                    },
                };
                let global_right = match self.acc_lp_fee_per_fee_liquidity(
                    Side::Right,
                    fee_level,
                ) {
                    Ok(v) => v,
                    Err(e) => {
                        return Err(e);
                    },
                };
                let a = match global_left.checked_sub(&lower_outside.0) {
                    Some(v) => match v.checked_sub(&upper_outside.0) {
                        Some(v2) => v2,
                        None => {
                            return Err(ErrorKind::InternalLogicError);
                        },
                    },
                    None => {
                        return Err(ErrorKind::InternalLogicError);
                    },
                };
                let b = match global_right.checked_sub(&lower_outside.1) {
                    Some(v) => match v.checked_sub(&upper_outside.1) {
                        Some(v2) => v2,
                        None => {
                            return Err(ErrorKind::InternalLogicError);
                        },
                    },
                    None => {
                        return Err(ErrorKind::InternalLogicError);
                    },
                };
                Ok((a, b))
            },
            RangeCmp::Below => {
                let a = match lower_outside.0.checked_sub(&upper_outside.0) {
                    Some(v) => v,
                    None => {
                        return Err(ErrorKind::InternalLogicError);
                    },
                };
                let b = match lower_outside.1.checked_sub(&upper_outside.1) {
                    Some(v) => v,
                    None => {
                        return Err(ErrorKind::InternalLogicError);
                    },
                };
                Ok((a, b))
            },
            RangeCmp::Above => {
                let a = match upper_outside.0.checked_sub(&lower_outside.0) {
                    Some(v) => v,
                    None => {
                        return Err(ErrorKind::InternalLogicError);
                    },
                };
                let b = match upper_outside.1.checked_sub(&lower_outside.1) {
                    Some(v) => v,
                    None => {
                        return Err(ErrorKind::InternalLogicError);
                    },
                };
                Ok((a, b))
            },
        }
    }
}

/// Raw value of the least liquidity a position may be opened with.
pub open spec fn spec_min_liquidity_raw() -> nat {
    pow2(53)
}

/// Raw value of the greatest liquidity a position may be opened with.
pub open spec fn spec_max_liquidity_raw() -> nat {
    pow2(207)
}

fn min_liquidity() -> (r: U192X64)
    ensures
        r.wf(),
        r.as_nat() == spec_min_liquidity_raw(),
{
    U192X64::from_raw(crate::limbs::limbs_pow2(4, 53))
}

fn max_liquidity() -> (r: U192X64)
    ensures
        r.wf(),
        r.as_nat() == spec_max_liquidity_raw(),
{
    U192X64::from_raw(crate::limbs::limbs_pow2(4, 207))
}

/// Narrow a price-scale value to the liquidity scale, dropping the lowest
/// 64 fractional bits.
pub fn u128x128_to_liquidity_pub(v: &U128X128) -> (r: U192X64)
    requires
        v.wf(),
    ensures
        r.wf(),
        r.as_nat() == v.as_nat() / pow2(64),
{
    proof {
        v.lemma_as_nat_bound();
        lemma_pow2_pos(64);
        vstd::arithmetic::div_mod::lemma_div_is_ordered(
            v.as_nat() as int,
            pow2(256) as int,
            pow2(64) as int,
        );
        vstd::arithmetic::div_mod::lemma_div_is_ordered_by_denominator(
            pow2(256) as int,
            1,
            pow2(64) as int,
        );
    }
    match crate::fp::fp_narrow_limbs(v.raw(), 1, 4) {
        Some(limbs) => U192X64::from_raw(limbs),
        None => {
            proof {
                assert(false);
            }
            U192X64::zero()
        },
    }
}

/// Liquidity credited for a whole-unit `amount` against a raw price gap
/// `diff`: `amount / diff`, floored at the liquidity grid.
pub open spec fn spec_liquidity_from_amount(amount: nat, diff: nat) -> nat {
    ((amount * pow2(256)) / diff) / pow2(64)
}

/// Liquidity that `amount` provides against a price gap `diff`
/// (`amount / diff`, floored at the liquidity grid).
fn liquidity_from_amount(amount: u128, diff: &U128X128) -> (r: Result<U192X64, ErrorKind>)
    requires
        diff.wf(),
        diff.as_nat() > 0,
    ensures
        match r {
            Ok(v) => v.wf() && v.as_nat() == spec_liquidity_from_amount(
                amount as nat,
                diff.as_nat(),
            ),
            Err(e) => e == ErrorKind::LiquidityTooBig,
        },
{
    let amount_fp = U128X128::from_u128(amount);
    let q = match amount_fp.checked_div(diff) {
        Some(q) => q,
        None => {
            return Err(ErrorKind::LiquidityTooBig);
        },
    };
    proof {
        assert(U128X128::scale() == pow2(128));
        lemma_pow2_adds(128, 128);
        assert(((amount as nat) * pow2(128)) * pow2(128) == (amount as nat) * pow2(256))
            by (nonlinear_arith)
            requires
                pow2(256) == pow2(128) * pow2(128),
        ;
    }
    Ok(u128x128_to_liquidity_pub(&q))
}

impl PoolV0 {
    /// Net liquidity accounted for a new position given the side amounts,
    /// the tick range and the level's effective prices.  The price position
    /// is judged by the given next-active-tick caches, which must already
    /// account for the position's boundary ticks.
    pub fn eval_accounted_net_liquidity(
        &self,
        max_amounts: (u128, u128),
        tick_low: &Tick,
        tick_high: &Tick,
        fee_level: u8,
        eff_left: &U128X128,
        eff_right: &U128X128,
        caches: (&Option<Tick>, &Option<Tick>),
    ) -> (r: Result<U192X64, ErrorKind>)
        requires
            self.wf(),
            fee_level < 8,
            tick_low.spec_valid(),
            tick_high.spec_valid(),
            eff_left.wf(),
            eff_right.wf(),
            match caches.0 {
                Some(t) => t.spec_valid(),
                None => true,
            },
            match caches.1 {
                Some(t) => t.spec_valid(),
                None => true,
            },
        ensures
            match r {
                Ok(v) => {
                    &&& v.wf()
                    &&& spec_min_liquidity_raw() <= v.as_nat() <= spec_max_liquidity_raw()
                    &&& {
                        // the three-case accounting formula
                        let low_left = crate::tick::spec_spot_sqrtprice(
                            crate::tick::spec_eff_tick_index(
                                tick_low.spec_index(),
                                fee_level as int,
                                Side::Left,
                            ),
                        );
                        let low_right = crate::tick::spec_spot_sqrtprice(
                            crate::tick::spec_eff_tick_index(
                                tick_low.spec_index(),
                                fee_level as int,
                                Side::Right,
                            ),
                        );
                        let high_left = crate::tick::spec_spot_sqrtprice(
                            crate::tick::spec_eff_tick_index(
                                tick_high.spec_index(),
                                fee_level as int,
                                Side::Left,
                            ),
                        );
                        let high_right = crate::tick::spec_spot_sqrtprice(
                            crate::tick::spec_eff_tick_index(
                                tick_high.spec_index(),
                                fee_level as int,
                                Side::Right,
                            ),
                        );
                        let on_low = eff_left.as_nat() == low_left || eff_right.as_nat()
                            == low_right;
                        let on_high = eff_left.as_nat() == high_left || eff_right.as_nat()
                            == high_right;
                        let cmp = if on_low {
                            Some(RangeCmp::Below)
                        } else if on_high {
                            Some(RangeCmp::Above)
                        } else {
                            spec_range_cmp(
                                *caches.0,
                                *caches.1,
                                tick_low.spec_index(),
                                tick_high.spec_index(),
                            )
                        };
                        match cmp {
                            Some(RangeCmp::Below) => high_right < low_right && v.as_nat()
                                == spec_liquidity_from_amount(
                                max_amounts.1 as nat,
                                (low_right - high_right) as nat,
                            ),
                            Some(RangeCmp::Within) => low_left < eff_left.as_nat() && high_right
                                < eff_right.as_nat() && {
                                let ll = spec_liquidity_from_amount(
                                    max_amounts.0 as nat,
                                    (eff_left.as_nat() - low_left) as nat,
                                );
                                let lr = spec_liquidity_from_amount(
                                    max_amounts.1 as nat,
                                    (eff_right.as_nat() - high_right) as nat,
                                );
                                v.as_nat() == if ll <= lr {
                                    ll
                                } else {
                                    lr
                                }
                            },
                            Some(RangeCmp::Above) => low_left < high_left && v.as_nat()
                                == spec_liquidity_from_amount(
                                max_amounts.0 as nat,
                                (high_left - low_left) as nat,
                            ),
                            None => false,
                        }
                    }
                },
                Err(_) => true,
            },
    {
        let cmp0 = match range_cmp_from_caches(caches.0, caches.1, tick_low, tick_high) {
            Ok(c) => c,
            Err(e) => {
                return Err(e);
            },
        };
        // when the price sits exactly on a bound, classify by that bound
        let low_left = tick_low.eff_sqrtprice(fee_level, Side::Left);
        let low_right = tick_low.eff_sqrtprice(fee_level, Side::Right);
        let high_left = tick_high.eff_sqrtprice(fee_level, Side::Left);
        let high_right = tick_high.eff_sqrtprice(fee_level, Side::Right);
        let is_on_low = eff_left.eq_val(&low_left) || eff_right.eq_val(&low_right);
        let is_on_high = eff_left.eq_val(&high_left) || eff_right.eq_val(&high_right);
        let cmp = if is_on_low {
            RangeCmp::Below
        } else if is_on_high {
            RangeCmp::Above
        } else {
            cmp0
        };
        let liquidity: U192X64 = match cmp {
            RangeCmp::Below => {
                // price below the range: the position is right-token only
                if max_amounts.1 == 0 {
                    return Err(ErrorKind::WrongRatio);
                }
                if !high_right.lt(&low_right) {
                    return Err(ErrorKind::InternalLogicError);
                }
                let diff = low_right.sub(&high_right);
                match liquidity_from_amount(max_amounts.1, &diff) {
                    Ok(v) => v,
                    Err(e) => {
                        return Err(e);
                    },
                }
            },
            RangeCmp::Within => {
                if max_amounts.0 == 0 || max_amounts.1 == 0 {
                    return Err(ErrorKind::WrongRatio);
                }
                if !low_left.lt(eff_left) {
                    return Err(ErrorKind::InternalLogicError);
                }
                let diff_left = eff_left.sub(&low_left);
                let liq_left = match liquidity_from_amount(max_amounts.0, &diff_left) {
                    Ok(v) => v,
                    Err(e) => {
                        return Err(e);
                    },
                };
                if !high_right.lt(eff_right) {
                    return Err(ErrorKind::InternalLogicError);
                }
                let diff_right = eff_right.sub(&high_right);
                let liq_right = match liquidity_from_amount(max_amounts.1, &diff_right) {
                    Ok(v) => v,
                    Err(e) => {
                        return Err(e);
                    },
                };
                if liq_left.lt(&liq_right) {
                    liq_left
                } else {
                    liq_right
                }
            },
            RangeCmp::Above => {
                // price above the range: the position is left-token only
                if max_amounts.0 == 0 {
                    return Err(ErrorKind::WrongRatio);
                }
                if !low_left.lt(&high_left) {
                    return Err(ErrorKind::InternalLogicError);
                }
                let diff = high_left.sub(&low_left);
                match liquidity_from_amount(max_amounts.0, &diff) {
                    Ok(v) => v,
                    Err(e) => {
                        return Err(e);
                    },
                }
            },
        };
        let lo = min_liquidity();
        let hi = max_liquidity();
        if liquidity.lt(&lo) {
            return Err(ErrorKind::LiquidityTooSmall);
        }
        if hi.lt(&liquidity) {
            return Err(ErrorKind::LiquidityTooBig);
        }
        Ok(liquidity)
    }
}

/// Price position relative to a tick range, judged by the next-active-tick
/// caches; `None` when the caches cannot decide.
pub open spec fn spec_range_cmp(
    next_left: Option<Tick>,
    next_right: Option<Tick>,
    lo: int,
    hi: int,
) -> Option<RangeCmp> {
    match (next_left, next_right) {
        (Some(nl), Some(nr)) => if lo <= nr.spec_index() && nl.spec_index() <= hi {
            Some(RangeCmp::Within)
        } else if hi <= nr.spec_index() {
            Some(RangeCmp::Above)
        } else if nl.spec_index() <= lo {
            Some(RangeCmp::Below)
        } else {
            None
        },
        (Some(nl), None) => if nl.spec_index() <= lo {
            Some(RangeCmp::Below)
        } else {
            None
        },
        (None, Some(nr)) => if hi <= nr.spec_index() {
            Some(RangeCmp::Above)
        } else {
            None
        },
        (None, None) => None,
    }
}

/// [`PoolV0::cmp_spot_price_to_position_range`] over explicit caches.
pub fn range_cmp_from_caches(
    next_left: &Option<Tick>,
    next_right: &Option<Tick>,
    tick_low: &Tick,
    tick_high: &Tick,
) -> (r: Result<RangeCmp, ErrorKind>)
    ensures
        match r {
            Ok(c) => spec_range_cmp(
                *next_left,
                *next_right,
                tick_low.spec_index(),
                tick_high.spec_index(),
            ) == Some(c),
            Err(e) => (e == ErrorKind::InternalLogicError || e
                == ErrorKind::InternalTickNotFound) && spec_range_cmp(
                *next_left,
                *next_right,
                tick_low.spec_index(),
                tick_high.spec_index(),
            ) is None,
        },
{
    match (next_left, next_right) {
        (Some(nl), Some(nr)) => {
            if tick_low.index() <= nr.index() && nl.index() <= tick_high.index() {
                Ok(RangeCmp::Within)
            } else if tick_high.index() <= nr.index() {
                Ok(RangeCmp::Above)
            } else if nl.index() <= tick_low.index() {
                Ok(RangeCmp::Below)
            } else {
                Err(ErrorKind::InternalLogicError)
            }
        },
        (Some(nl), None) => {
            if nl.index() <= tick_low.index() {
                Ok(RangeCmp::Below)
            } else {
                Err(ErrorKind::InternalTickNotFound)
            }
        },
        (None, Some(nr)) => {
            if tick_high.index() <= nr.index() {
                Ok(RangeCmp::Above)
            } else {
                Err(ErrorKind::InternalTickNotFound)
            }
        },
        (None, None) => Err(ErrorKind::InternalTickNotFound),
    }
}

/// Replace one element of a vector.
pub fn vec_replace<T>(v: &mut Vec<T>, i: usize, x: T)
    requires
        i < old(v)@.len(),
    ensures
        final(v)@ == old(v)@.update(i as int, x),
{
    let _old = v.remove(i);
    v.insert(i, x);
    proof {
        assert(final(v)@ =~= old(v)@.update(i as int, x));
    }
}

/// Initial effective price of a pool derived from the first position's
/// amounts and tick range, together with the side it is quoted for.
pub fn eval_initial_eff_sqrtprice(
    amount_left: u128,
    amount_right: u128,
    tick_low: &Tick,
    tick_high: &Tick,
    fee_level: u8,
) -> (r: Result<(U128X128, Side), ErrorKind>)
    requires
        tick_low.spec_valid(),
        tick_high.spec_valid(),
        fee_level < 8,
    ensures
        match r {
            Ok((p, _side)) => p.wf() && p.as_nat() > 0,
            Err(_) => true,
        },
        // the single-token cases are pinned exactly: the price starts at
        // the far bound of the range
        (amount_left > 0 && amount_right == 0) ==> (if tick_high.spec_index() >= MAX_TICK {
            r == Err::<(U128X128, Side), ErrorKind>(ErrorKind::WrongRatio)
        } else {
            match r {
                Ok((p, sd)) => p.as_nat() == crate::tick::spec_spot_sqrtprice(
                    crate::tick::spec_eff_tick_index(
                        tick_high.spec_index(),
                        fee_level as int,
                        Side::Right,
                    ),
                ) && sd == Side::Right,
                Err(_) => false,
            }
        }),
        (amount_left == 0 && amount_right > 0) ==> (if tick_low.spec_index() <= MIN_TICK {
            r == Err::<(U128X128, Side), ErrorKind>(ErrorKind::WrongRatio)
        } else {
            match r {
                Ok((p, sd)) => p.as_nat() == crate::tick::spec_spot_sqrtprice(
                    crate::tick::spec_eff_tick_index(
                        tick_low.spec_index(),
                        fee_level as int,
                        Side::Left,
                    ),
                ) && sd == Side::Left,
                Err(_) => false,
            }
        }),
        (amount_left == 0 && amount_right == 0) ==> r == Err::<(U128X128, Side), ErrorKind>(
            ErrorKind::InvalidParams,
        ),
{
    if amount_left > 0 && amount_right > 0 {
        // both tokens: solve the consistency equation for the price,
        // preferring the numerically benign direction
        let low_left = tick_low.eff_sqrtprice(fee_level, Side::Left);
        let low_right = tick_high.eff_sqrtprice(fee_level, Side::Right);
        let al = crate::pool::amount_to_ufp(amount_left);
        let ar = crate::pool::amount_to_ufp(amount_right);
        let lhs = match al.checked_mul(&crate::pool::price_to_ufp(&low_right)) {
            Some(v) => v,
            None => {
                return Err(ErrorKind::InternalLogicError);
            },
        };
        let rhs = match ar.checked_mul(&crate::pool::price_to_ufp(&low_left)) {
            Some(v) => v,
            None => {
                return Err(ErrorKind::InternalLogicError);
            },
        };
        let is_eval_left = !rhs.lt(&lhs);
        let (num, den) = if is_eval_left {
            (amount_left, amount_right)
        } else {
            (amount_right, amount_left)
        };
        let num_ufp = crate::pool::amount_to_ufp(num);
        let den_ufp = crate::pool::amount_to_ufp(den);
        if den_ufp.is_zero() {
            return Err(ErrorKind::InternalLogicError);
        }
        let amount_ratio = match num_ufp.checked_div(&den_ufp) {
            Some(v) => v,
            None => {
                return Err(ErrorKind::LiquidityTooBig);
            },
        };
        let (base_price, other_price) = if is_eval_left {
            (&low_left, &low_right)
        } else {
            (&low_right, &low_left)
        };
        let base_ufp = crate::pool::price_to_ufp(base_price);
        let other_ufp = crate::pool::price_to_ufp(other_price);
        let prod = match amount_ratio.checked_mul(&other_ufp) {
            Some(v) => v,
            None => {
                return Err(ErrorKind::InternalLogicError);
            },
        };
        let minus_b = match base_ufp.checked_sub(&prod) {
            Some(v) => v,
            None => {
                return Err(ErrorKind::InternalLogicError);
            },
        };
        let oo = if is_eval_left {
            match crate::pool::price_to_ufp(&low_left).checked_mul(
                &crate::pool::price_to_ufp(&tick_low.eff_sqrtprice(fee_level, Side::Right)),
            ) {
                Some(v) => v,
                None => {
                    return Err(ErrorKind::InternalLogicError);
                },
            }
        } else {
            match crate::pool::price_to_ufp(&low_right).checked_mul(
                &crate::pool::price_to_ufp(&tick_high.eff_sqrtprice(fee_level, Side::Left)),
            ) {
                Some(v) => v,
                None => {
                    return Err(ErrorKind::InternalLogicError);
                },
            }
        };
        let four = crate::pool::amount_to_ufp(4);
        let minus_four_a_c = match amount_ratio.checked_mul(&oo) {
            Some(v) => match v.checked_mul(&four) {
                Some(v2) => v2,
                None => {
                    return Err(ErrorKind::LiquidityTooBig);
                },
            },
            None => {
                return Err(ErrorKind::LiquidityTooBig);
            },
        };
        let b_sq = match minus_b.checked_mul(&minus_b) {
            Some(v) => v,
            None => {
                return Err(ErrorKind::InternalLogicError);
            },
        };
        let discriminant = match b_sq.checked_add(&minus_four_a_c) {
            Some(v) => v,
            None => {
                return Err(ErrorKind::InternalLogicError);
            },
        };
        let root = discriminant.integer_sqrt();
        let sum = match root.checked_add(&minus_b) {
            Some(v) => v,
            None => {
                return Err(ErrorKind::InternalLogicError);
            },
        };
        let two = crate::pool::amount_to_ufp(2);
        let eff_wide = match sum.checked_div(&two) {
            Some(v) => v,
            None => {
                return Err(ErrorKind::InternalLogicError);
            },
        };
        // narrow the amount-scale price down to the price scale
        let eff = match crate::fp::fp_narrow_limbs(eff_wide.raw(), 2, 4) {
            Some(limbs) => U128X128::from_raw(limbs),
            None => {
                return Err(ErrorKind::InternalLogicError);
            },
        };
        if eff.is_zero() {
            return Err(ErrorKind::InternalLogicError);
        }
        if is_eval_left {
            let hi = tick_high.eff_sqrtprice(fee_level, Side::Left);
            if eff.lt(&low_left) || hi.lt(&eff) {
                return Err(ErrorKind::InternalLogicError);
            }
            Ok((eff, Side::Left))
        } else {
            let hi = tick_low.eff_sqrtprice(fee_level, Side::Right);
            if eff.lt(&low_right) || hi.lt(&eff) {
                return Err(ErrorKind::InternalLogicError);
            }
            Ok((eff, Side::Right))
        }
    } else if amount_left > 0 {
        // left token only: the price starts at the upper bound
        if tick_high.index() >= MAX_TICK {
            return Err(ErrorKind::WrongRatio);
        }
        Ok((tick_high.eff_sqrtprice(fee_level, Side::Right), Side::Right))
    } else if amount_right > 0 {
        // right token only: the price starts at the lower bound
        if tick_low.index() <= MIN_TICK {
            return Err(ErrorKind::WrongRatio);
        }
        Ok((tick_low.eff_sqrtprice(fee_level, Side::Left), Side::Left))
    } else {
        Err(ErrorKind::InvalidParams)
    }
}

/// Per-level effective prices and the pivot for a pool being initialized
/// from its first position.
pub fn compute_init_prices(eff_sqrtprice: &U128X128, side: Side, fee_level: u8) -> (r: Result<
    (Vec<EffectiveSqrtPrice>, EffTick),
    ErrorKind,
>)
    requires
        eff_sqrtprice.wf(),
        eff_sqrtprice.as_nat() > 0,
        fee_level < 8,
    ensures
        match r {
            Ok((prices, pivot)) => {
                &&& prices@.len() == 8
                &&& (forall|l: int| 0 <= l < 8 ==> (#[trigger] prices@[l]).wf())
                &&& (forall|l: int|
                    0 <= l < 8 ==> (#[trigger] prices@[l]).left.as_nat() > 0
                        && prices@[l].right.as_nat() > 0)
                &&& pivot.spec_valid()
                &&& crate::price::spec_pivot_ok(eff_sqrtprice.as_nat(), pivot.spec_index())
                // every level carries the one common spot price, shifted to
                // its own fee offset through the shared pivot
                &&& (forall|l: int|
                    0 <= l < 8 ==> (#[trigger] prices@[l]).spec_value(side) == ((
                    eff_sqrtprice.as_nat() * pow2(128)) / crate::tick::spec_spot_sqrtprice(
                        pivot.spec_index(),
                    ) * crate::tick::spec_spot_sqrtprice(
                        pivot.spec_index() - pow2(fee_level as nat) + pow2(l as nat),
                    )) / pow2(128))
            },
            Err(_) => true,
        },
{
    let pivot = match crate::price::find_pivot(EffTick::origin(), eff_sqrtprice) {
        Ok(p) => p,
        Err(e) => {
            return Err(e);
        },
    };
    let pivot_price = pivot.eff_sqrtprice();
    let fr_this = crate::tick::fee_rate_ticks(fee_level) as i32;
    let mut prices: Vec<EffectiveSqrtPrice> = Vec::new();
    let mut l: u8 = 0;
    while l < 8
        invariant
            eff_sqrtprice.wf(),
            eff_sqrtprice.as_nat() > 0,
            pivot.spec_valid(),
            pivot_price.wf(),
            pivot_price.as_nat() > 0,
            pivot_price.as_nat() == crate::tick::spec_spot_sqrtprice(pivot.spec_index()),
            -128 <= fr_this <= 128,
            (fr_this as int) == pow2(fee_level as nat),
            fee_level < 8,
            l <= 8,
            prices@.len() == l as int,
            forall|j: int| 0 <= j < l as int ==> (#[trigger] prices@[j]).wf(),
            forall|j: int|
                0 <= j < l as int ==> (#[trigger] prices@[j]).left.as_nat() > 0
                    && prices@[j].right.as_nat() > 0,
            forall|j: int|
                0 <= j < l as int ==> (#[trigger] prices@[j]).spec_value(side) == ((
                eff_sqrtprice.as_nat() * pow2(128)) / crate::tick::spec_spot_sqrtprice(
                    pivot.spec_index(),
                ) * crate::tick::spec_spot_sqrtprice(
                    pivot.spec_index() - pow2(fee_level as nat) + pow2(j as nat),
                )) / pow2(128),
        decreases 8 - l,
    {
        let fr_l = crate::tick::fee_rate_ticks(l) as i32;
        let opp_idx = pivot.index() - fr_this + fr_l;
        let p_opp = match EffTick::new(opp_idx) {
            Ok(t) => t,
            Err(e) => {
                return Err(e);
            },
        };
        let ratio = match eff_sqrtprice.checked_div(&pivot_price) {
            Some(v) => v,
            None => {
                return Err(ErrorKind::InternalLogicError);
            },
        };
        let eff_l = match ratio.checked_mul(&p_opp.eff_sqrtprice()) {
            Some(v) => v,
            None => {
                return Err(ErrorKind::InternalLogicError);
            },
        };
        if eff_l.is_zero() {
            return Err(ErrorKind::InternalLogicError);
        }
        let eff_opp = match crate::price::eff_sqrtprice_opposite_side(&eff_l, l, Some(pivot)) {
            Ok(v) => v,
            Err(e) => {
                return Err(e);
            },
        };
        if eff_opp.is_zero() {
            return Err(ErrorKind::InternalLogicError);
        }
        proof {
            assert(U128X128::scale() == pow2(128));
            assert((p_opp.spec_index()) == pivot.spec_index() - pow2(fee_level as nat) + pow2(
                l as nat,
            ));
            assert(eff_l.as_nat() == ((eff_sqrtprice.as_nat() * pow2(128))
                / crate::tick::spec_spot_sqrtprice(pivot.spec_index())
                * crate::tick::spec_spot_sqrtprice(p_opp.spec_index())) / pow2(128));
            assert(MIN_EFF_TICK <= p_opp.spec_index());
            assert(p_opp.spec_index() <= MAX_EFF_TICK);
            assert(MIN_EFF_TICK <= pivot.spec_index() - pow2(fee_level as nat) + pow2(
                l as nat,
            ));
            assert(pivot.spec_index() - pow2(fee_level as nat) + pow2(l as nat) <= MAX_EFF_TICK);
        }
        let pair = match side {
            Side::Left => EffectiveSqrtPrice::new(eff_l, eff_opp),
            Side::Right => EffectiveSqrtPrice::new(eff_opp, eff_l),
        };
        proof {
            assert(pair.spec_value(side) == eff_l.as_nat());
        }
        prices.push(pair);
        l = l + 1;
    }
    Ok((prices, pivot))
}

/// The validation error of a position request, if its ranges are
/// degenerate or its ticks lie off the grid; checked in order.
pub open spec fn spec_open_validation_error(position: &PositionInit) -> Option<ErrorKind> {
    if position.amount_ranges.0.max < position.amount_ranges.0.min
        || position.amount_ranges.1.max < position.amount_ranges.1.min {
        Some(ErrorKind::InvalidParams)
    } else if (match position.ticks_range.0 {
        Some(v) => !Tick::spec_valid_index(v as int),
        None => false,
    }) || (match position.ticks_range.1 {
        Some(v) => !Tick::spec_valid_index(v as int),
        None => false,
    }) {
        Some(ErrorKind::PriceTickOutOfBounds)
    } else if spec_unwrap_high(position.ticks_range.1) <= spec_unwrap_low(position.ticks_range.0) {
        Some(ErrorKind::InvalidParams)
    } else {
        None
    }
}

/// Resolved lower bound of an optional tick range.
pub open spec fn spec_unwrap_low(o: Option<i32>) -> int {
    match o {
        Some(v) => v as int,
        None => MIN_TICK as int,
    }
}

/// Resolved upper bound of an optional tick range.
pub open spec fn spec_unwrap_high(o: Option<i32>) -> int {
    match o {
        Some(v) => v as int,
        None => MAX_TICK as int,
    }
}

/// [`PoolV0::eval_next_active_ticks`] over explicit prices and caches.
pub fn next_ticks_after_activation(
    cur_left: Option<Tick>,
    cur_right: Option<Tick>,
    eff_left: &U128X128,
    eff_right: &U128X128,
    new_tick: &Tick,
    fee_level: u8,
) -> (r: Result<(Option<Tick>, Option<Tick>), ErrorKind>)
    requires
        eff_left.wf(),
        eff_right.wf(),
        new_tick.spec_valid(),
        fee_level < 8,
        match cur_left {
            Some(t) => t.spec_valid(),
            None => true,
        },
        match cur_right {
            Some(t) => t.spec_valid(),
            None => true,
        },
    ensures
        match r {
            Ok((l, rr)) => {
                &&& match l {
                    Some(t) => t.spec_valid(),
                    None => true,
                }
                &&& match rr {
                    Some(t) => t.spec_valid(),
                    None => true,
                }
            },
            Err(e) => e == ErrorKind::InternalLogicError,
        },
{
    let tick_left = new_tick.eff_sqrtprice(fee_level, Side::Left);
    let tick_right = new_tick.eff_sqrtprice(fee_level, Side::Right);
    if eff_left.lt(&tick_left) {
        // the new tick lies ahead of a leftward swap
        if eff_right.lt(&tick_right) {
            return Err(ErrorKind::InternalLogicError);
        }
        let better: bool = match cur_right {
            Some(t) => t.index() < new_tick.index(),
            None => true,
        };
        if !better {
            return Err(ErrorKind::InternalLogicError);
        }
        let new_left: Option<Tick> = match cur_left {
            Some(t) => {
                if new_tick.index() < t.index() {
                    Some(*new_tick)
                } else {
                    Some(t)
                }
            },
            None => Some(*new_tick),
        };
        Ok((new_left, cur_right))
    } else {
        if tick_right.lt(eff_right) {
            return Err(ErrorKind::InternalLogicError);
        }
        let is_cur_left: bool = match cur_left {
            Some(t) => t.index() == new_tick.index(),
            None => false,
        };
        if is_cur_left {
            if eff_left.eq_val(&tick_left) {
                Ok((cur_left, cur_right))
            } else {
                Err(ErrorKind::InternalLogicError)
            }
        } else {
            let new_right: Option<Tick> = match cur_right {
                Some(t) => {
                    if new_tick.index() > t.index() {
                        Some(*new_tick)
                    } else {
                        Some(t)
                    }
                },
                None => Some(*new_tick),
            };
            Ok((cur_left, new_right))
        }
    }
}

impl PoolV0 {
    /// [`PoolV0::acc_range_lp_fees_per_fee_liquidity`] judged by explicit
    /// next-active-tick caches.
    pub fn acc_range_with_caches(
        &self,
        fee_level: u8,
        tick_low: &Tick,
        tick_high: &Tick,
        next_left: &Option<Tick>,
        next_right: &Option<Tick>,
    ) -> (r: Result<(I128X128, I128X128), ErrorKind>)
        requires
            self.wf(),
            fee_level < 8,
            tick_low.spec_valid(),
            tick_high.spec_valid(),
        ensures
            match r {
                Ok((a, b)) => a.valid() && b.valid(),
                Err(_) => true,
            },
    {
        let lvl = fee_level as usize;
        let lower_outside: (I128X128, I128X128) = match self.tick_states[lvl].get(
            tick_low.index(),
        ) {
            Some(st) => st.acc_lp_fees_per_fee_liquidity_outside,
            None => (Signed::<U128X128>::zero(), Signed::<U128X128>::zero()),
        };
        let upper_outside: (I128X128, I128X128) = match self.tick_states[lvl].get(
            tick_high.index(),
        ) {
            Some(st) => st.acc_lp_fees_per_fee_liquidity_outside,
            None => (Signed::<U128X128>::zero(), Signed::<U128X128>::zero()),
        };
        let cmp = match range_cmp_from_caches(next_left, next_right, tick_low, tick_high) {
            Ok(c) => c,
            Err(e) => {
                return Err(e);
            },
        };
        self.acc_range_from_outside(fee_level, cmp, lower_outside, upper_outside)
    }

    /// Combine boundary "outside" snapshots into the in-range accumulator.
    fn acc_range_from_outside(
        &self,
        fee_level: u8,
        cmp: RangeCmp,
        lower_outside: (I128X128, I128X128),
        upper_outside: (I128X128, I128X128),
    ) -> (r: Result<(I128X128, I128X128), ErrorKind>)
        requires
            self.wf(),
            fee_level < 8,
            lower_outside.0.valid(),
            lower_outside.1.valid(),
            upper_outside.0.valid(),
            upper_outside.1.valid(),
        ensures
            match r {
                Ok((a, b)) => a.valid() && b.valid(),
                Err(_) => true,
            },
    {
        match cmp {
            RangeCmp::Within => {
                let global_left = match self.acc_lp_fee_per_fee_liquidity(Side::Left, fee_level) {
                    Ok(v) => v,
                    Err(e) => {
                        return Err(e);
                    },
                };
                let global_right = match self.acc_lp_fee_per_fee_liquidity(
                    Side::Right,
                    fee_level,
                ) {
                    Ok(v) => v,
                    Err(e) => {
                        return Err(e);
                    },
                };
                let a = match global_left.checked_sub(&lower_outside.0) {
                    Some(v) => match v.checked_sub(&upper_outside.0) {
                        Some(v2) => v2,
                        None => {
                            return Err(ErrorKind::InternalLogicError);
                        },
                    },
                    None => {
                        return Err(ErrorKind::InternalLogicError);
                    },
                };
                let b = match global_right.checked_sub(&lower_outside.1) {
                    Some(v) => match v.checked_sub(&upper_outside.1) {
                        Some(v2) => v2,
                        None => {
                            return Err(ErrorKind::InternalLogicError);
                        },
                    },
                    None => {
                        return Err(ErrorKind::InternalLogicError);
                    },
                };
                Ok((a, b))
            },
            RangeCmp::Below => {
                match (lower_outside.0.checked_sub(&upper_outside.0), lower_outside.1.checked_sub(
                    &upper_outside.1,
                )) {
                    (Some(a), Some(b)) => Ok((a, b)),
                    _ => Err(ErrorKind::InternalLogicError),
                }
            },
            RangeCmp::Above => {
                match (upper_outside.0.checked_sub(&lower_outside.0), upper_outside.1.checked_sub(
                    &lower_outside.1,
                )) {
                    (Some(a), Some(b)) => Ok((a, b)),
                    _ => Err(ErrorKind::InternalLogicError),
                }
            },
        }
    }

    /// Open a position: derive its liquidity from the offered amounts,
    /// charge the deposit (rounded up in the pool's favour), and register
    /// the position and its boundary ticks.
    ///
    /// On an error the pool is left unchanged.
    #[verifier::rlimit(100)]
    pub fn open_position(&mut self, position: &PositionInit, fee_level: u8, position_id: u64) -> (r:
        Result<((Amount, Amount), U192X64), ErrorKind>)
        requires
            old(self).wf(),
            old(self).reserve_invariant(),
            fee_level < 8,
        ensures
            match r {
                Ok(((dep0, dep1), liq)) => {
                    &&& final(self).wf()
                    &&& final(self).reserve_invariant()
                    &&& liq.wf()
                    &&& spec_min_liquidity_raw() <= liq.as_nat() <= spec_max_liquidity_raw()
                    &&& final(self).positions.spec_contains(position_id)
                    &&& final(self).positions.spec_at(
                        position_id,
                    ).net_liquidity.as_nat() == liq.as_nat()
                    &&& final(self).positions.entries@.len() == old(self).positions.entries@.len()
                        + 1
                    &&& !old(self).positions.spec_contains(position_id)
                    &&& final(self).total_reserves.0 == old(self).total_reserves.0 + dep0
                    &&& final(self).total_reserves.1 == old(self).total_reserves.1 + dep1
                    &&& final(self).spec_price_set()
                    &&& (!old(self).spec_price_set() ==> final(self).top_active_level == 0)
                    &&& dep0 <= position.amount_ranges.0.max && dep1
                        <= position.amount_ranges.1.max
                    &&& dep0 >= position.amount_ranges.0.min && dep1
                        >= position.amount_ranges.1.min
                    &&& {
                        let lo = spec_unwrap_low(position.ticks_range.0);
                        let hi = spec_unwrap_high(position.ticks_range.1);
                        &&& final(self).tick_states@[fee_level as int].spec_contains(lo)
                        &&& final(self).tick_states@[fee_level as int].spec_contains(hi)
                        &&& final(self).spec_reference_count(fee_level as int, lo) == old(self).spec_reference_count(fee_level as int, lo) + 1
                        &&& final(self).spec_reference_count(fee_level as int, hi) == old(self).spec_reference_count(fee_level as int, hi) + 1
                        &&& final(self).tick_states@[fee_level as int].spec_at(
                            lo,
                        ).net_liquidity_change.int_val() == (if old(self).tick_states@[fee_level as int].spec_contains(lo) {
                            old(self).tick_states@[fee_level as int].spec_at(
                                lo,
                            ).net_liquidity_change.int_val()
                        } else {
                            0int
                        }) + liq.as_nat()
                        &&& final(self).tick_states@[fee_level as int].spec_at(
                            hi,
                        ).net_liquidity_change.int_val() == (if old(self).tick_states@[fee_level as int].spec_contains(hi) {
                            old(self).tick_states@[fee_level as int].spec_at(
                                hi,
                            ).net_liquidity_change.int_val()
                        } else {
                            0int
                        }) - liq.as_nat()
                        &&& final(self).tick_states@[fee_level as int].same_except_pair(
                            &old(self).tick_states@[fee_level as int],
                            lo,
                            hi,
                        )
                    }
                    &&& forall|l: int|
                        0 <= l < 8 && l != fee_level as int ==> final(self).tick_states@[l] == old(self).tick_states@[l]
                },
                Err(_) => *final(self) == *old(self),
            },
            // the leading validations, each tied to its error
            match spec_open_validation_error(position) {
                Some(e) => r == Err::<((Amount, Amount), U192X64), ErrorKind>(e),
                None => true,
            },
    {
        let lvl = fee_level as usize;
        let left_min = position.amount_ranges.0.min;
        let left_max = position.amount_ranges.0.max;
        let right_min = position.amount_ranges.1.min;
        let right_max = position.amount_ranges.1.max;
        if left_max < left_min || right_max < right_min {
            return Err(ErrorKind::InvalidParams);
        }
        let (tick_low, tick_high) = match Tick::unwrap_range(position.ticks_range) {
            Ok(t) => t,
            Err(e) => {
                return Err(e);
            },
        };
        if tick_high.index() <= tick_low.index() {
            return Err(ErrorKind::InvalidParams);
        }
        // effective prices of the level, either current or derived from
        // this first position
        let need_init = !self.is_spot_price_set();
        let (eff_l, eff_r, init_state) = if need_init {
            let (p, side) = match eval_initial_eff_sqrtprice(
                left_max,
                right_max,
                &tick_low,
                &tick_high,
                fee_level,
            ) {
                Ok(v) => v,
                Err(e) => {
                    return Err(e);
                },
            };
            let (prices, pivot) = match compute_init_prices(&p, side, fee_level) {
                Ok(v) => v,
                Err(e) => {
                    return Err(e);
                },
            };
            let el = prices[lvl].left.clone();
            let er = prices[lvl].right.clone();
            (el, er, Some((prices, pivot, side)))
        } else {
            let el = self.eff_sqrtprice(Side::Left, fee_level).clone();
            let er = self.eff_sqrtprice(Side::Right, fee_level).clone();
            (el, er, None)
        };
        // next-active-tick caches after activating both boundary ticks
        let cur_l: Option<Tick> = self.next_active_ticks_left[lvl];
        let cur_r: Option<Tick> = self.next_active_ticks_right[lvl];
        let (c1l, c1r) = match next_ticks_after_activation(
            cur_l,
            cur_r,
            &eff_l,
            &eff_r,
            &tick_low,
            fee_level,
        ) {
            Ok(v) => v,
            Err(e) => {
                return Err(e);
            },
        };
        let (c2l, c2r) = match next_ticks_after_activation(
            c1l,
            c1r,
            &eff_l,
            &eff_r,
            &tick_high,
            fee_level,
        ) {
            Ok(v) => v,
            Err(e) => {
                return Err(e);
            },
        };
        // accounted liquidity and fee accumulator snapshot
        let liq = match self.eval_accounted_net_liquidity(
            (left_max, right_max),
            &tick_low,
            &tick_high,
            fee_level,
            &eff_l,
            &eff_r,
            (&c2l, &c2r),
        ) {
            Ok(v) => v,
            Err(e) => {
                return Err(e);
            },
        };
        let init_acc = match self.acc_range_with_caches(fee_level, &tick_low, &tick_high, &c2l, &c2r) {
            Ok(v) => v,
            Err(e) => {
                return Err(e);
            },
        };
        let oosqrt = crate::price::one_over_sqrt_one_minus_fee_rate(fee_level);
        let init_sqrtprice = match eff_r.checked_div(&oosqrt) {
            Some(v) => v,
            None => {
                return Err(ErrorKind::InternalLogicError);
            },
        };
        if self.positions.contains_key(position_id) {
            return Err(ErrorKind::PositionAlreadyExists);
        }
        let pos = PositionV0 {
            fee_level,
            net_liquidity: liq.clone(),
            init_acc_lp_fees_per_fee_liquidity: (init_acc.0.clone(), init_acc.1.clone()),
            unwithdrawn_acc_lp_fees_per_fee_liquidity: (init_acc.0.clone(), init_acc.1.clone()),
            init_sqrtprice,
            tick_bounds: (tick_low, tick_high),
        };
        // new boundary tick states
        let st_low = match self.tick_states[lvl].get(tick_low.index()) {
            Some(st) => st,
            None => TickStateV0::new_default(),
        };
        let st_high = match self.tick_states[lvl].get(tick_high.index()) {
            Some(st) => st,
            None => TickStateV0::new_default(),
        };
        let liq_signed = Signed::<U192X64>::from_unsigned(liq.clone());
        let new_nlc_low = match st_low.net_liquidity_change.checked_add(&liq_signed) {
            Some(v) => v,
            None => {
                return Err(ErrorKind::InternalLogicError);
            },
        };
        let liq_signed2 = Signed::<U192X64>::from_unsigned(liq.clone());
        let new_nlc_high = match st_high.net_liquidity_change.checked_sub(&liq_signed2) {
            Some(v) => v,
            None => {
                return Err(ErrorKind::InternalLogicError);
            },
        };
        if st_low.reference_counter == u32::MAX || st_high.reference_counter == u32::MAX {
            return Err(ErrorKind::InternalLogicError);
        }
        let st_low_new = TickStateV0 {
            net_liquidity_change: new_nlc_low,
            reference_counter: st_low.reference_counter + 1,
            acc_lp_fees_per_fee_liquidity_outside: st_low.acc_lp_fees_per_fee_liquidity_outside,
        };
        let st_high_new = TickStateV0 {
            net_liquidity_change: new_nlc_high,
            reference_counter: st_high.reference_counter + 1,
            acc_lp_fees_per_fee_liquidity_outside: st_high.acc_lp_fees_per_fee_liquidity_outside,
        };
        // deposit implied by the liquidity, and new reserves
        let dep_ufp = match eval_position_balance_ufp(
            &liq,
            &tick_low,
            &tick_high,
            &eff_l,
            &eff_r,
            fee_level,
        ) {
            Ok(v) => v,
            Err(e) => {
                return Err(e);
            },
        };
        let new_pr0 = match self.position_reserves[lvl].0.checked_add(&dep_ufp.0) {
            Some(v) => v,
            None => {
                return Err(ErrorKind::DepositWouldOverflow);
            },
        };
        let new_pr1 = match self.position_reserves[lvl].1.checked_add(&dep_ufp.1) {
            Some(v) => v,
            None => {
                return Err(ErrorKind::DepositWouldOverflow);
            },
        };
        let cmp = match range_cmp_from_caches(&c2l, &c2r, &tick_low, &tick_high) {
            Ok(c) => c,
            Err(e) => {
                return Err(e);
            },
        };
        let new_net: Option<U192X64> = if cmp == RangeCmp::Within {
            match self.net_liquidities[lvl].checked_add(&liq) {
                Some(v) => Some(v),
                None => {
                    return Err(ErrorKind::InternalLogicError);
                },
            }
        } else {
            None
        };
        // round the charged amounts up: the protocol absorbs the rounding
        let dep0 = match ufp_ceil_to_amount(&dep_ufp.0) {
            Some(v) => v,
            None => {
                return Err(ErrorKind::ConvOverflow);
            },
        };
        let dep1 = match ufp_ceil_to_amount(&dep_ufp.1) {
            Some(v) => v,
            None => {
                return Err(ErrorKind::ConvOverflow);
            },
        };
        if dep0 > left_max || dep1 > right_max {
            return Err(ErrorKind::InternalLogicError);
        }
        if dep0 < left_min || dep1 < right_min {
            return Err(ErrorKind::WrongRatio);
        }
        let new_t0 = match self.total_reserves.0.checked_add(dep0) {
            Some(v) => v,
            None => {
                return Err(ErrorKind::DepositWouldOverflow);
            },
        };
        let new_t1 = match self.total_reserves.1.checked_add(dep1) {
            Some(v) => v,
            None => {
                return Err(ErrorKind::DepositWouldOverflow);
            },
        };
        // commit
        let ghost pre = *self;
        match init_state {
            Some((prices, pivot, side)) => {
                self.eff_sqrtprices = prices;
                self.pivot = pivot;
                self.top_active_level = 0;
                self.active_side = side;
            },
            None => {},
        }
        vec_replace(&mut self.next_active_ticks_left, lvl, c2l);
        vec_replace(&mut self.next_active_ticks_right, lvl, c2r);
        self.positions.insert_new(position_id, pos);
        let mut ts = self.tick_states.remove(lvl);
        ts.set(tick_low.index(), st_low_new);
        ts.set(tick_high.index(), st_high_new);
        self.tick_states.insert(lvl, ts);
        let ghost old_pr = pre.position_reserves@[lvl as int];
        vec_replace(&mut self.position_reserves, lvl, (new_pr0, new_pr1));
        match new_net {
            Some(nl) => {
                vec_replace(&mut self.net_liquidities, lvl, nl);
            },
            None => {},
        }
        self.total_reserves = (new_t0, new_t1);
        proof {
            assert(self.tick_states@ =~= pre.tick_states@.update(lvl as int, ts));
            assert(self.position_reserves@ == pre.position_reserves@.update(
                lvl as int,
                (new_pr0, new_pr1),
            ));
            // reserves: the added deposit covers the added position reserve
            lemma_sum_update(
                pre.position_reserves@,
                self.position_reserves@,
                lvl as int,
                8,
            );
            lemma_pow2_pos(256);
            assert((new_t0 as nat) * pow2(256) == (pre.total_reserves.0 as nat) * pow2(256) + (
            dep0 as nat) * pow2(256)) by (nonlinear_arith)
                requires
                    new_t0 == pre.total_reserves.0 + dep0,
            ;
            assert((new_t1 as nat) * pow2(256) == (pre.total_reserves.1 as nat) * pow2(256) + (
            dep1 as nat) * pow2(256)) by (nonlinear_arith)
                requires
                    new_t1 == pre.total_reserves.1 + dep1,
            ;
        }
        Ok(((dep0, dep1), liq))
    }
}

impl PoolV0 {
    /// LP reward accrued by a position since creation or since the last
    /// withdrawal, in amount fixed point.
    pub fn position_reward_ufp(&self, pos: &PositionV0, since_creation: bool) -> (r: Result<
        (U256X256, U256X256),
        ErrorKind,
    >)
        requires
            self.wf(),
            pos.wf(),
        ensures
            match r {
                Ok((a, b)) => a.wf() && b.wf(),
                Err(_) => true,
            },
    {
        let acc = match self.acc_range_lp_fees_per_fee_liquidity(
            pos.fee_level,
            &pos.tick_bounds.0,
            &pos.tick_bounds.1,
        ) {
            Ok(v) => v,
            Err(e) => {
                return Err(e);
            },
        };
        let base = if since_creation {
            (
                pos.init_acc_lp_fees_per_fee_liquidity.0.clone(),
                pos.init_acc_lp_fees_per_fee_liquidity.1.clone(),
            )
        } else {
            (
                pos.unwithdrawn_acc_lp_fees_per_fee_liquidity.0.clone(),
                pos.unwithdrawn_acc_lp_fees_per_fee_liquidity.1.clone(),
            )
        };
        let d0 = match acc.0.checked_sub(&base.0) {
            Some(v) => v,
            None => {
                return Err(ErrorKind::InternalLogicError);
            },
        };
        let d1 = match acc.1.checked_sub(&base.1) {
            Some(v) => v,
            None => {
                return Err(ErrorKind::InternalLogicError);
            },
        };
        let zero = Signed::<U128X128>::zero();
        if d0.lt(&zero) || d1.lt(&zero) {
            return Err(ErrorKind::InternalLogicError);
        }
        let fee_liq = match crate::price::fee_liquidity_from_net_liquidity(
            &pos.net_liquidity,
            pos.fee_level,
        ) {
            Ok(v) => v,
            Err(e) => {
                return Err(e);
            },
        };
        // widen the fee liquidity and the accumulator differences into the
        // amount fixed point, then multiply
        let fee_liq_ufp = U256X256::from_raw(crate::fp::fp_widen_limbs(fee_liq.raw(), 1, 8));
        let d0_ufp = crate::pool::price_to_ufp(&d0.value);
        let d1_ufp = crate::pool::price_to_ufp(&d1.value);
        let r0 = match fee_liq_ufp.checked_mul(&d0_ufp) {
            Some(v) => v,
            None => {
                return Err(ErrorKind::ConvOverflow);
            },
        };
        let r1 = match fee_liq_ufp.checked_mul(&d1_ufp) {
            Some(v) => v,
            None => {
                return Err(ErrorKind::ConvOverflow);
            },
        };
        Ok((r0, r1))
    }

    /// Withdraw the LP reward of a position.  The reward is rounded down
    /// to whole token units; the pool keeps the remainder.
    ///
    /// On an error the pool is left unchanged.
    pub fn withdraw_fee(&mut self, position_id: u64) -> (r: Result<(Amount, Amount), ErrorKind>)
        requires
            old(self).wf(),
            old(self).reserve_invariant(),
        ensures
            match r {
                Ok((f0, f1)) => {
                    &&& final(self).wf()
                    &&& final(self).reserve_invariant()
                    &&& final(self).total_reserves.0 == old(self).total_reserves.0 - f0
                    &&& final(self).total_reserves.1 == old(self).total_reserves.1 - f1
                    &&& final(self).positions.spec_contains(position_id)
                    &&& final(self).tick_states@ == old(self).tick_states@
                    &&& final(self).position_reserves@ == old(self).position_reserves@
                },
                Err(_) => *final(self) == *old(self),
            },
    {
        let (pos_level, pos_low, pos_high, reward_ufp, acc) = match self.positions.get(position_id) {
            Some(pos) => {
                let acc = match self.acc_range_lp_fees_per_fee_liquidity(
                    pos.fee_level,
                    &pos.tick_bounds.0,
                    &pos.tick_bounds.1,
                ) {
                    Ok(v) => v,
                    Err(e) => {
                        return Err(e);
                    },
                };
                let reward_ufp = match self.position_reward_ufp(pos, false) {
                    Ok(v) => v,
                    Err(e) => {
                        return Err(e);
                    },
                };
                (pos.fee_level, pos.tick_bounds.0, pos.tick_bounds.1, reward_ufp, acc)
            },
            None => {
                return Err(ErrorKind::PositionDoesNotExist);
            },
        };
        let f0 = match reward_ufp.0.try_to_u128_floor() {
            Some(v) => v,
            None => {
                return Err(ErrorKind::ConvOverflow);
            },
        };
        let f1 = match reward_ufp.1.try_to_u128_floor() {
            Some(v) => v,
            None => {
                return Err(ErrorKind::ConvOverflow);
            },
        };
        let new_fee0 = match self.acc_lp_fee.0.checked_sub(&reward_ufp.0) {
            Some(v) => v,
            None => {
                return Err(ErrorKind::InternalLogicError);
            },
        };
        let new_fee1 = match self.acc_lp_fee.1.checked_sub(&reward_ufp.1) {
            Some(v) => v,
            None => {
                return Err(ErrorKind::InternalLogicError);
            },
        };
        if self.total_reserves.0 < f0 || self.total_reserves.1 < f1 {
            return Err(ErrorKind::InternalLogicError);
        }
        let new_pos = match self.positions.get(position_id) {
            Some(pos) => PositionV0 {
                fee_level: pos.fee_level,
                net_liquidity: pos.net_liquidity.clone(),
                init_acc_lp_fees_per_fee_liquidity: (
                    pos.init_acc_lp_fees_per_fee_liquidity.0.clone(),
                    pos.init_acc_lp_fees_per_fee_liquidity.1.clone(),
                ),
                unwithdrawn_acc_lp_fees_per_fee_liquidity: (acc.0.clone(), acc.1.clone()),
                init_sqrtprice: pos.init_sqrtprice.clone(),
                tick_bounds: pos.tick_bounds,
            },
            None => {
                return Err(ErrorKind::PositionDoesNotExist);
            },
        };
        // commit
        let ghost pre = *self;
        self.positions.set_existing(position_id, new_pos);
        self.acc_lp_fee = (new_fee0, new_fee1);
        let new_t0 = self.total_reserves.0 - f0;
        let new_t1 = self.total_reserves.1 - f1;
        self.total_reserves = (new_t0, new_t1);
        proof {
            lemma_pow2_pos(256);
            assert(U256X256::scale() == pow2(256));
            // the rounded-down reward never exceeds the deducted fee amount
            vstd::arithmetic::div_mod::lemma_fundamental_div_mod(
                reward_ufp.0.as_nat() as int,
                pow2(256) as int,
            );
            vstd::arithmetic::div_mod::lemma_fundamental_div_mod(
                reward_ufp.1.as_nat() as int,
                pow2(256) as int,
            );
            assert((f0 as nat) * pow2(256) <= reward_ufp.0.as_nat()) by (nonlinear_arith)
                requires
                    (f0 as nat) == reward_ufp.0.as_nat() / pow2(256),
                    (reward_ufp.0.as_nat() as int) == pow2(256) * ((reward_ufp.0.as_nat() / pow2(
                        256,
                    )) as int) + (reward_ufp.0.as_nat() % pow2(256)) as int,
                    reward_ufp.0.as_nat() % pow2(256) >= 0,
            ;
            assert((f1 as nat) * pow2(256) <= reward_ufp.1.as_nat()) by (nonlinear_arith)
                requires
                    (f1 as nat) == reward_ufp.1.as_nat() / pow2(256),
                    (reward_ufp.1.as_nat() as int) == pow2(256) * ((reward_ufp.1.as_nat() / pow2(
                        256,
                    )) as int) + (reward_ufp.1.as_nat() % pow2(256)) as int,
                    reward_ufp.1.as_nat() % pow2(256) >= 0,
            ;
            assert((new_t0 as nat) * pow2(256) == (pre.total_reserves.0 as nat) * pow2(256) - (
            f0 as nat) * pow2(256)) by (nonlinear_arith)
                requires
                    new_t0 == pre.total_reserves.0 - f0,
            ;
            assert((new_t1 as nat) * pow2(256) == (pre.total_reserves.1 as nat) * pow2(256) - (
            f1 as nat) * pow2(256)) by (nonlinear_arith)
                requires
                    new_t1 == pre.total_reserves.1 - f1,
            ;
        }
        Ok((f0, f1))
    }
}

impl PoolV0 {
    /// Withdraw the accrued reward and close a position: return its balance,
    /// release its boundary ticks, and reset the pool when the last
    /// position disappears.
    ///
    /// Returns `(reward, balance)`.  On an error the pool is left unchanged.
    #[verifier::rlimit(100)]
    pub fn withdraw_fee_and_close_position(&mut self, position_id: u64) -> (r: Result<
        ((Amount, Amount), (Amount, Amount)),
        ErrorKind,
    >)
        requires
            old(self).wf(),
            old(self).reserve_invariant(),
        ensures
            match r {
                Ok(((f0, f1), (b0, b1))) => {
                    &&& final(self).wf()
                    &&& final(self).reserve_invariant()
                    &&& old(self).positions.spec_contains(position_id)
                    &&& !final(self).positions.spec_contains(position_id)
                    &&& final(self).positions.entries@.len() == old(self).positions.entries@.len()
                        - 1
                    &&& final(self).total_reserves.0 == old(self).total_reserves.0 - f0 - b0
                    &&& final(self).total_reserves.1 == old(self).total_reserves.1 - f1 - b1
                    &&& {
                        let pos = old(self).positions.spec_at(position_id);
                        let lvl = pos.fee_level as int;
                        let lo = pos.tick_bounds.0.spec_index();
                        let hi = pos.tick_bounds.1.spec_index();
                        &&& final(self).spec_reference_count(lvl, lo) == old(self).spec_reference_count(lvl, lo) - 1
                        &&& final(self).spec_reference_count(lvl, hi) == old(self).spec_reference_count(lvl, hi) - 1
                        // the returned balance is the floored value the
                        // position holds at the current prices
                        &&& (b0 as nat) == spec_balance_one_side(
                            pos.net_liquidity.as_nat(),
                            crate::tick::spec_spot_sqrtprice(
                                crate::tick::spec_eff_tick_index(lo, lvl, Side::Left),
                            ),
                            crate::tick::spec_spot_sqrtprice(
                                crate::tick::spec_eff_tick_index(hi, lvl, Side::Left),
                            ),
                            old(self).eff_sqrtprices@[lvl].left.as_nat(),
                        ) / pow2(256)
                        &&& (b1 as nat) == spec_balance_one_side(
                            pos.net_liquidity.as_nat(),
                            crate::tick::spec_spot_sqrtprice(
                                crate::tick::spec_eff_tick_index(hi, lvl, Side::Right),
                            ),
                            crate::tick::spec_spot_sqrtprice(
                                crate::tick::spec_eff_tick_index(lo, lvl, Side::Right),
                            ),
                            old(self).eff_sqrtprices@[lvl].right.as_nat(),
                        ) / pow2(256)
                        &&& (final(self).tick_states@[lvl].spec_contains(lo) <==> old(self).spec_reference_count(lvl, lo) > 1)
                        &&& (final(self).tick_states@[lvl].spec_contains(hi) <==> old(self).spec_reference_count(lvl, hi) > 1)
                        &&& (final(self).tick_states@[lvl].spec_contains(lo) ==> final(self).tick_states@[lvl].spec_at(lo).net_liquidity_change.int_val() == old(self).tick_states@[lvl].spec_at(lo).net_liquidity_change.int_val()
                            - pos.net_liquidity.as_nat())
                        &&& (final(self).tick_states@[lvl].spec_contains(hi) ==> final(self).tick_states@[lvl].spec_at(hi).net_liquidity_change.int_val() == old(self).tick_states@[lvl].spec_at(hi).net_liquidity_change.int_val()
                            + pos.net_liquidity.as_nat())
                        &&& final(self).tick_states@[lvl].same_except_pair(
                            &old(self).tick_states@[lvl],
                            lo,
                            hi,
                        )
                        &&& forall|l: int|
                            0 <= l < 8 && l != lvl ==> final(self).tick_states@[l] == old(self).tick_states@[l]
                        &&& (final(self).spec_no_active_ticks() ==> {
                            &&& !final(self).spec_price_set()
                            &&& final(self).top_active_level == 0
                            &&& forall|l: int|
                                0 <= l < 8 ==> (#[trigger] final(self).next_active_ticks_left@[l]) is None && final(self).next_active_ticks_right@[l] is None
                        })
                        &&& (!final(self).spec_no_active_ticks() ==> {
                            &&& final(self).eff_sqrtprices == old(self).eff_sqrtprices
                            &&& final(self).top_active_level == old(self).top_active_level
                            &&& forall|l: int|
                                0 <= l < 8 && l != lvl ==> (#[trigger] final(self).next_active_ticks_left@[l]) == old(self).next_active_ticks_left@[l] && final(self).next_active_ticks_right@[l] == old(self).next_active_ticks_right@[l]
                        })
                    }
                },
                Err(_) => *final(self) == *old(self),
            },
    {
        let (fee_level, tick_low, tick_high, net_liq, reward_ufp) = match self.positions.get(
            position_id,
        ) {
            Some(pos) => {
                let reward_ufp = match self.position_reward_ufp(pos, false) {
                    Ok(v) => v,
                    Err(e) => {
                        return Err(e);
                    },
                };
                (
                    pos.fee_level,
                    pos.tick_bounds.0,
                    pos.tick_bounds.1,
                    pos.net_liquidity.clone(),
                    reward_ufp,
                )
            },
            None => {
                return Err(ErrorKind::PositionDoesNotExist);
            },
        };
        let lvl = fee_level as usize;
        let f0 = match reward_ufp.0.try_to_u128_floor() {
            Some(v) => v,
            None => {
                return Err(ErrorKind::ConvOverflow);
            },
        };
        let f1 = match reward_ufp.1.try_to_u128_floor() {
            Some(v) => v,
            None => {
                return Err(ErrorKind::ConvOverflow);
            },
        };
        let new_fee0 = match self.acc_lp_fee.0.checked_sub(&reward_ufp.0) {
            Some(v) => v,
            None => {
                return Err(ErrorKind::InternalLogicError);
            },
        };
        let new_fee1 = match self.acc_lp_fee.1.checked_sub(&reward_ufp.1) {
            Some(v) => v,
            None => {
                return Err(ErrorKind::InternalLogicError);
            },
        };
        // balance held by the position at the current prices
        let eff_l = self.eff_sqrtprice(Side::Left, fee_level).clone();
        let eff_r = self.eff_sqrtprice(Side::Right, fee_level).clone();
        let bal_ufp = match eval_position_balance_ufp(
            &net_liq,
            &tick_low,
            &tick_high,
            &eff_l,
            &eff_r,
            fee_level,
        ) {
            Ok(v) => v,
            Err(e) => {
                return Err(e);
            },
        };
        let b0 = match bal_ufp.0.try_to_u128_floor() {
            Some(v) => v,
            None => {
                return Err(ErrorKind::ConvOverflow);
            },
        };
        let b1 = match bal_ufp.1.try_to_u128_floor() {
            Some(v) => v,
            None => {
                return Err(ErrorKind::ConvOverflow);
            },
        };
        let new_pr0 = match self.position_reserves[lvl].0.checked_sub(&bal_ufp.0) {
            Some(v) => v,
            None => {
                return Err(ErrorKind::InternalLogicError);
            },
        };
        let new_pr1 = match self.position_reserves[lvl].1.checked_sub(&bal_ufp.1) {
            Some(v) => v,
            None => {
                return Err(ErrorKind::InternalLogicError);
            },
        };
        let cmp = match self.cmp_spot_price_to_position_range(fee_level, &tick_low, &tick_high) {
            Ok(c) => c,
            Err(e) => {
                return Err(e);
            },
        };
        let new_net: Option<U192X64> = if cmp == RangeCmp::Within {
            match self.net_liquidities[lvl].checked_sub(&net_liq) {
                Some(v) => Some(v),
                None => {
                    return Err(ErrorKind::InternalLogicError);
                },
            }
        } else {
            None
        };
        // boundary tick states after dereferencing
        let st_low = match self.tick_states[lvl].get(tick_low.index()) {
            Some(st) => st,
            None => {
                return Err(ErrorKind::InternalTickNotFound);
            },
        };
        let st_high = match self.tick_states[lvl].get(tick_high.index()) {
            Some(st) => st,
            None => {
                return Err(ErrorKind::InternalTickNotFound);
            },
        };
        let liq_signed = Signed::<U192X64>::from_unsigned(net_liq.clone());
        let new_nlc_low = match st_low.net_liquidity_change.checked_sub(&liq_signed) {
            Some(v) => v,
            None => {
                return Err(ErrorKind::InternalLogicError);
            },
        };
        let liq_signed2 = Signed::<U192X64>::from_unsigned(net_liq.clone());
        let new_nlc_high = match st_high.net_liquidity_change.checked_add(&liq_signed2) {
            Some(v) => v,
            None => {
                return Err(ErrorKind::InternalLogicError);
            },
        };
        let low_removed = st_low.reference_counter == 1;
        let high_removed = st_high.reference_counter == 1;
        let st_low_new = TickStateV0 {
            net_liquidity_change: new_nlc_low,
            reference_counter: st_low.reference_counter - 1,
            acc_lp_fees_per_fee_liquidity_outside: st_low.acc_lp_fees_per_fee_liquidity_outside,
        };
        let st_high_new = TickStateV0 {
            net_liquidity_change: new_nlc_high,
            reference_counter: st_high.reference_counter - 1,
            acc_lp_fees_per_fee_liquidity_outside: st_high.acc_lp_fees_per_fee_liquidity_outside,
        };
        // totals
        if self.total_reserves.0 < f0 {
            return Err(ErrorKind::InternalLogicError);
        }
        let t0a = self.total_reserves.0 - f0;
        if t0a < b0 {
            return Err(ErrorKind::InternalLogicError);
        }
        let new_t0 = t0a - b0;
        if self.total_reserves.1 < f1 {
            return Err(ErrorKind::InternalLogicError);
        }
        let t1a = self.total_reserves.1 - f1;
        if t1a < b1 {
            return Err(ErrorKind::InternalLogicError);
        }
        let new_t1 = t1a - b1;
        // commit
        let ghost pre = *self;
        let _removed_pos = self.positions.remove_key(position_id);
        let mut ts = self.tick_states.remove(lvl);
        if low_removed {
            ts.remove(tick_low.index());
        } else {
            ts.set(tick_low.index(), st_low_new);
        }
        if high_removed {
            ts.remove(tick_high.index());
        } else {
            ts.set(tick_high.index(), st_high_new);
        }
        // repair the next-active-tick caches for removed ticks
        let cur_cl: Option<Tick> = self.next_active_ticks_left[lvl];
        let cur_cr: Option<Tick> = self.next_active_ticks_right[lvl];
        let new_cl: Option<Tick> = match cur_cl {
            Some(t) => {
                if (low_removed && t.index() == tick_low.index()) || (high_removed && t.index()
                    == tick_high.index()) {
                    match ts.next_above(t.index()) {
                        Some(k) => Some(Tick { index: k }),
                        None => None,
                    }
                } else {
                    Some(t)
                }
            },
            None => None,
        };
        let new_cr: Option<Tick> = match cur_cr {
            Some(t) => {
                if (low_removed && t.index() == tick_low.index()) || (high_removed && t.index()
                    == tick_high.index()) {
                    match ts.next_below(t.index()) {
                        Some(k) => Some(Tick { index: k }),
                        None => None,
                    }
                } else {
                    Some(t)
                }
            },
            None => None,
        };
        // every remaining level's map sits at indices 0..=6 here; inspect
        // them all, whatever level the closed position was on
        let pool_now_empty = {
            let mut others_empty = true;
            let mut li: usize = 0;
            while li < 7
                invariant
                    li <= 7,
                    self.tick_states@.len() == 7,
                    others_empty <==> (forall|j: int|
                        0 <= j < li ==> (#[trigger] self.tick_states@[j]).entries@.len() == 0),
                decreases 7 - li,
            {
                if !self.tick_states[li].is_empty() {
                    others_empty = false;
                }
                li = li + 1;
            }
            others_empty && ts.is_empty()
        };
        let ghost removed_maps = self.tick_states@;
        let ghost ts_view = ts;
        self.tick_states.insert(lvl, ts);
        vec_replace(&mut self.next_active_ticks_left, lvl, new_cl);
        vec_replace(&mut self.next_active_ticks_right, lvl, new_cr);
        vec_replace(&mut self.position_reserves, lvl, (new_pr0, new_pr1));
        match new_net {
            Some(nl) => {
                vec_replace(&mut self.net_liquidities, lvl, nl);
            },
            None => {},
        }
        self.acc_lp_fee = (new_fee0, new_fee1);
        self.total_reserves = (new_t0, new_t1);
        if pool_now_empty {
            // last position closed: reset the price state
            let mut prices: Vec<EffectiveSqrtPrice> = Vec::new();
            let mut nal: Vec<Option<Tick>> = Vec::new();
            let mut nar: Vec<Option<Tick>> = Vec::new();
            let mut i: usize = 0;
            while i < 8
                invariant
                    i <= 8,
                    prices@.len() == i,
                    forall|j: int|
                        0 <= j < i ==> (#[trigger] prices@[j]).wf() && prices@[j].left.as_nat()
                            == 0,
                    nal@.len() == i,
                    forall|j: int| 0 <= j < i ==> (#[trigger] nal@[j]) is None,
                    nar@.len() == i,
                    forall|j: int| 0 <= j < i ==> (#[trigger] nar@[j]) is None,
                decreases 8 - i,
            {
                prices.push(EffectiveSqrtPrice::zero());
                nal.push(None);
                nar.push(None);
                i = i + 1;
            }
            self.eff_sqrtprices = prices;
            self.next_active_ticks_left = nal;
            self.next_active_ticks_right = nar;
            self.top_active_level = 0;
        }
        proof {
            assert(self.tick_states@ =~= pre.tick_states@.update(
                lvl as int,
                self.tick_states@[lvl as int],
            ));
            // the emptiness scan saw exactly the levels other than `lvl`
            assert(pool_now_empty <==> self.spec_no_active_ticks()) by {
                if pool_now_empty {
                    assert forall|l: int|
                        0 <= l < 8 implies (#[trigger] self.tick_states@[l]).entries@.len()
                        == 0 by {
                        if l != lvl as int {
                            let j = if l < lvl as int {
                                l
                            } else {
                                l - 1
                            };
                            assert(removed_maps[j].entries@.len() == 0);
                            assert(self.tick_states@[l] == removed_maps[j]);
                        }
                    }
                } else {
                    if self.spec_no_active_ticks() {
                        assert forall|j: int|
                            0 <= j < 7 implies (#[trigger] removed_maps[j]).entries@.len()
                            == 0 by {
                            let l = if j < lvl as int {
                                j
                            } else {
                                j + 1
                            };
                            assert(self.tick_states@[l] == removed_maps[j]);
                        }
                        assert(false);
                    }
                }
            };
            assert(self.position_reserves@ == pre.position_reserves@.update(
                lvl as int,
                (new_pr0, new_pr1),
            ));
            lemma_sum_update(
                pre.position_reserves@,
                self.position_reserves@,
                lvl as int,
                8,
            );
            lemma_pow2_pos(256);
            assert(U256X256::scale() == pow2(256));
            vstd::arithmetic::div_mod::lemma_fundamental_div_mod(
                reward_ufp.0.as_nat() as int,
                pow2(256) as int,
            );
            vstd::arithmetic::div_mod::lemma_fundamental_div_mod(
                reward_ufp.1.as_nat() as int,
                pow2(256) as int,
            );
            vstd::arithmetic::div_mod::lemma_fundamental_div_mod(
                bal_ufp.0.as_nat() as int,
                pow2(256) as int,
            );
            vstd::arithmetic::div_mod::lemma_fundamental_div_mod(
                bal_ufp.1.as_nat() as int,
                pow2(256) as int,
            );
            assert((f0 as nat) * pow2(256) <= reward_ufp.0.as_nat() && (b0 as nat) * pow2(256)
                <= bal_ufp.0.as_nat() && (f1 as nat) * pow2(256) <= reward_ufp.1.as_nat() && (
            b1 as nat) * pow2(256) <= bal_ufp.1.as_nat()) by (nonlinear_arith)
                requires
                    (f0 as nat) == reward_ufp.0.as_nat() / pow2(256),
                    (b0 as nat) == bal_ufp.0.as_nat() / pow2(256),
                    (f1 as nat) == reward_ufp.1.as_nat() / pow2(256),
                    (b1 as nat) == bal_ufp.1.as_nat() / pow2(256),
                    (reward_ufp.0.as_nat() as int) == pow2(256) * ((reward_ufp.0.as_nat() / pow2(
                        256,
                    )) as int) + (reward_ufp.0.as_nat() % pow2(256)) as int,
                    (bal_ufp.0.as_nat() as int) == pow2(256) * ((bal_ufp.0.as_nat() / pow2(
                        256,
                    )) as int) + (bal_ufp.0.as_nat() % pow2(256)) as int,
                    (reward_ufp.1.as_nat() as int) == pow2(256) * ((reward_ufp.1.as_nat() / pow2(
                        256,
                    )) as int) + (reward_ufp.1.as_nat() % pow2(256)) as int,
                    (bal_ufp.1.as_nat() as int) == pow2(256) * ((bal_ufp.1.as_nat() / pow2(
                        256,
                    )) as int) + (bal_ufp.1.as_nat() % pow2(256)) as int,
            ;
            assert((new_t0 as nat) * pow2(256) == (pre.total_reserves.0 as nat) * pow2(256) - (
            f0 as nat) * pow2(256) - (b0 as nat) * pow2(256)) by (nonlinear_arith)
                requires
                    new_t0 == pre.total_reserves.0 - f0 - b0,
            ;
            assert((new_t1 as nat) * pow2(256) == (pre.total_reserves.1 as nat) * pow2(256) - (
            f1 as nat) * pow2(256) - (b1 as nat) * pow2(256)) by (nonlinear_arith)
                requires
                    new_t1 == pre.total_reserves.1 - f1 - b1,
            ;
        }
        Ok(((f0, f1), (b0, b1)))
    }
}

} // verus!
