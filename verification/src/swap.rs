//! Swap execution: an iterative price-stepping loop.
//!
//! Each step moves the effective price of all active levels toward a
//! target bounded by the remaining amount, the next level activation and
//! the next tick crossing, whichever binds first.  All roundings favour
//! the pool: position reserves and LP fees are credited by floored
//! products, the trader's input is rounded up and the output down, and
//! every credit is additionally capped by the amount actually paid in, so
//! the reserve invariant is maintained exactly.

use vstd::prelude::*;
use vstd::arithmetic::power2::*;

use crate::errors::ErrorKind;
use crate::fp::u128x128::U128X128;
use crate::fp::u192x64::U192X64;
use crate::fp::u192x192::U192X192;
use crate::fp::u256x256::U256X256;
use crate::fp::signed::Signed;
use crate::pool::{PoolV0, Amount, price_to_ufp, liquidity_to_ufp, lemma_sum_update,
    spec_sum_left, spec_sum_right};
use crate::pool_types::{TickStateV0, EffectiveSqrtPrice};
use crate::pool_ops::vec_replace;
use crate::tick::{Tick, EffTick};
use crate::util_types::{Side, Exact};

verus! {

/// Scale factor of the fee fractions: fees are quoted in units of
/// `1/BASIS_POINT_DIVISOR`.
pub const BASIS_POINT_DIVISOR: u16 = 10000;

/// What bounded a swap step.
#[derive(Clone, Copy, Debug, PartialEq, Eq, Structural)]
pub enum StepLimit {
    StepComplete,
    LevelActivation,
    TickCrossing,
}

impl PoolV0 {
    /// Sum of the gross liquidities of the levels up to `top` inclusive.
    pub fn sum_gross_liquidities(&self, top: u8) -> (r: Result<U192X192, ErrorKind>)
        requires
            self.wf(),
            top < 8,
        ensures
            match r {
                Ok(v) => v.wf(),
                Err(_) => true,
            },
    {
        let mut acc = U192X192::zero();
        let mut l: u8 = 0;
        while l <= top
            invariant
                self.wf(),
                top < 8,
                l <= top + 1,
                acc.wf(),
            decreases top + 1 - l,
        {
            let g = match crate::price::gross_liquidity_from_net_liquidity(
                &self.net_liquidities[l as usize],
                l,
            ) {
                Ok(v) => v,
                Err(e) => {
                    return Err(e);
                },
            };
            acc = match acc.checked_add(&g) {
                Some(v) => v,
                None => {
                    return Err(ErrorKind::InternalLogicError);
                },
            };
            l = l + 1;
        }
        Ok(acc)
    }

    /// Sum of the fee liquidities of the levels up to `top` inclusive.
    pub fn sum_fee_liquidities(&self, top: u8) -> (r: Result<U192X192, ErrorKind>)
        requires
            self.wf(),
            top < 8,
        ensures
            match r {
                Ok(v) => v.wf(),
                Err(_) => true,
            },
    {
        let mut acc = U192X192::zero();
        let mut l: u8 = 0;
        while l <= top
            invariant
                self.wf(),
                top < 8,
                l <= top + 1,
                acc.wf(),
            decreases top + 1 - l,
        {
            let g = match crate::price::fee_liquidity_from_net_liquidity(
                &self.net_liquidities[l as usize],
                l,
            ) {
                Ok(v) => v,
                Err(e) => {
                    return Err(e);
                },
            };
            acc = match acc.checked_add(&g) {
                Some(v) => v,
                None => {
                    return Err(ErrorKind::InternalLogicError);
                },
            };
            l = l + 1;
        }
        Ok(acc)
    }

    /// Sum of the net liquidities of the levels up to `top` inclusive, in
    /// amount fixed point.
    pub fn sum_net_liquidities_ufp(&self, top: u8) -> (r: Result<U256X256, ErrorKind>)
        requires
            self.wf(),
            top < 8,
        ensures
            match r {
                Ok(v) => v.wf(),
                Err(_) => true,
            },
    {
        let mut acc = U256X256::zero();
        let mut l: u8 = 0;
        while l <= top
            invariant
                self.wf(),
                top < 8,
                l <= top + 1,
                acc.wf(),
            decreases top + 1 - l,
        {
            let g = liquidity_to_ufp(&self.net_liquidities[l as usize]);
            acc = match acc.checked_add(&g) {
                Some(v) => v,
                None => {
                    return Err(ErrorKind::InternalLogicError);
                },
            };
            l = l + 1;
        }
        Ok(acc)
    }

    /// The next active ticks with the lowest effective price in the swap
    /// direction among the levels up to `top` inclusive.
    pub fn nearest_active_ticks(&self, side: Side, top: u8) -> (r: Vec<(u8, Tick)>)
        requires
            self.wf(),
            top < 8,
        ensures
            forall|i: int|
                0 <= i < r@.len() ==> (#[trigger] r@[i]).0 < 8 && r@[i].1.spec_valid(),
    {
        let mut best: Option<i32> = None;
        let mut l: u8 = 0;
        while l <= top
            invariant
                self.wf(),
                top < 8,
                l <= top + 1,
            decreases top + 1 - l,
        {
            let cache: &Option<Tick> = match side {
                Side::Left => &self.next_active_ticks_left[l as usize],
                Side::Right => &self.next_active_ticks_right[l as usize],
            };
            match cache {
                Some(t) => {
                    let fr = crate::tick::fee_rate_ticks(l) as i32;
                    let eff_idx: i32 = match side {
                        Side::Left => t.index() + fr,
                        Side::Right => -t.index() + fr,
                    };
                    best = match best {
                        Some(b) => {
                            if eff_idx < b {
                                Some(eff_idx)
                            } else {
                                Some(b)
                            }
                        },
                        None => Some(eff_idx),
                    };
                },
                None => {},
            }
            l = l + 1;
        }
        let mut out: Vec<(u8, Tick)> = Vec::new();
        match best {
            Some(b) => {
                let mut l2: u8 = 0;
                while l2 <= top
                    invariant
                        self.wf(),
                        top < 8,
                        l2 <= top + 1,
                        forall|i: int|
                            0 <= i < out@.len() ==> (#[trigger] out@[i]).0 < 8
                                && out@[i].1.spec_valid(),
                    decreases top + 1 - l2,
                {
                    let cache: &Option<Tick> = match side {
                        Side::Left => &self.next_active_ticks_left[l2 as usize],
                        Side::Right => &self.next_active_ticks_right[l2 as usize],
                    };
                    match cache {
                        Some(t) => {
                            let fr = crate::tick::fee_rate_ticks(l2) as i32;
                            let eff_idx: i32 = match side {
                                Side::Left => t.index() + fr,
                                Side::Right => -t.index() + fr,
                            };
                            if eff_idx == b {
                                out.push((l2, *t));
                            }
                        },
                        None => {},
                    }
                    l2 = l2 + 1;
                }
            },
            None => {},
        }
        out
    }

    /// Cross the given ticks: fold their liquidity deltas into the active
    /// liquidity, reflect their outside fee accumulators, and advance the
    /// next-active-tick caches.
    pub fn tick_crossing(&mut self, crossed: &Vec<(u8, Tick)>, swap_direction: Side) -> (r: Result<
        (),
        ErrorKind,
    >)
        requires
            old(self).wf(),
            forall|i: int|
                0 <= i < crossed@.len() ==> (#[trigger] crossed@[i]).0 < 8
                    && crossed@[i].1.spec_valid(),
        ensures
            final(self).wf(),
            final(self).total_reserves == old(self).total_reserves,
            final(self).position_reserves@ == old(self).position_reserves@,
            final(self).acc_lp_fee == old(self).acc_lp_fee,
    {
        let mut i: usize = 0;
        while i < crossed.len()
            invariant
                self.wf(),
                forall|j: int|
                    0 <= j < crossed@.len() ==> (#[trigger] crossed@[j]).0 < 8
                        && crossed@[j].1.spec_valid(),
                self.total_reserves == old(self).total_reserves,
                self.position_reserves@ == old(self).position_reserves@,
                self.acc_lp_fee == old(self).acc_lp_fee,
            decreases crossed.len() - i,
        {
            let level = crossed[i].0;
            let tick = crossed[i].1;
            let lvl = level as usize;
            let global_left = match self.acc_lp_fee_per_fee_liquidity(Side::Left, level) {
                Ok(v) => v,
                Err(e) => {
                    return Err(e);
                },
            };
            let global_right = match self.acc_lp_fee_per_fee_liquidity(Side::Right, level) {
                Ok(v) => v,
                Err(e) => {
                    return Err(e);
                },
            };
            match self.tick_states[lvl].get(tick.index()) {
                Some(st) => {
                    // fold the liquidity delta into the active liquidity
                    let change = match swap_direction {
                        Side::Left => st.net_liquidity_change.clone(),
                        Side::Right => st.net_liquidity_change.clone().neg(),
                    };
                    let cur = Signed::<U192X64>::from_unsigned(
                        self.net_liquidities[lvl].clone(),
                    );
                    let new_liq_signed = match cur.checked_add(&change) {
                        Some(v) => v,
                        None => {
                            return Err(ErrorKind::InternalLogicError);
                        },
                    };
                    let new_liq = match new_liq_signed.try_into_unsigned() {
                        Ok(v) => v,
                        Err(_) => {
                            return Err(ErrorKind::InternalLogicError);
                        },
                    };
                    // reflect the outside accumulators
                    let new_out0 = match global_left.checked_sub(
                        &st.acc_lp_fees_per_fee_liquidity_outside.0,
                    ) {
                        Some(v) => v,
                        None => {
                            return Err(ErrorKind::InternalLogicError);
                        },
                    };
                    let new_out1 = match global_right.checked_sub(
                        &st.acc_lp_fees_per_fee_liquidity_outside.1,
                    ) {
                        Some(v) => v,
                        None => {
                            return Err(ErrorKind::InternalLogicError);
                        },
                    };
                    let st_new = TickStateV0 {
                        net_liquidity_change: st.net_liquidity_change,
                        reference_counter: st.reference_counter,
                        acc_lp_fees_per_fee_liquidity_outside: (new_out0, new_out1),
                    };
                    let ghost pre_ts = self.tick_states@;
                    let mut ts = self.tick_states.remove(lvl);
                    ts.set(tick.index(), st_new);
                    // advance the caches past the crossed tick
                    let replacement: Option<Tick> = match swap_direction {
                        Side::Left => match ts.next_above(tick.index()) {
                            Some(k) => Some(Tick { index: k }),
                            None => None,
                        },
                        Side::Right => match ts.next_below(tick.index()) {
                            Some(k) => Some(Tick { index: k }),
                            None => None,
                        },
                    };
                    self.tick_states.insert(lvl, ts);
                    proof {
                        assert(self.tick_states@ =~= pre_ts.update(
                            lvl as int,
                            self.tick_states@[lvl as int],
                        ));
                    }
                    match swap_direction {
                        Side::Left => {
                            let old_left: Option<Tick> = self.next_active_ticks_left[lvl];
                            vec_replace(&mut self.next_active_ticks_right, lvl, old_left);
                            vec_replace(&mut self.next_active_ticks_left, lvl, replacement);
                        },
                        Side::Right => {
                            let old_right: Option<Tick> = self.next_active_ticks_right[lvl];
                            vec_replace(&mut self.next_active_ticks_left, lvl, old_right);
                            vec_replace(&mut self.next_active_ticks_right, lvl, replacement);
                        },
                    }
                    vec_replace(&mut self.net_liquidities, lvl, new_liq);
                },
                None => {
                    // a crossed tick without state: nothing to fold
                },
            }
            i = i + 1;
        }
        Ok(())
    }
}

impl PoolV0 {
    /// One price step toward `required_target` (the side-price target in
    /// amount fixed point; `None` when unbounded).  Returns the amount
    /// paid in, the amount released, and what bounded the step.
    ///
    /// The amount paid in is capped by `headroom`; every credit to the
    /// position reserves and the LP fee pot is taken from that cap, which
    /// is how the reserve invariant survives arbitrary rounding.
    #[verifier::rlimit(100)]
    pub fn swap_step(
        &mut self,
        side: Side,
        required_target: Option<U256X256>,
        protocol_fee_fraction: u16,
        headroom: &U256X256,
    ) -> (r: Result<(U256X256, U256X256, StepLimit), ErrorKind>)
        requires
            old(self).wf(),
            match required_target {
                Some(t) => t.wf(),
                None => true,
            },
            headroom.wf(),
            protocol_fee_fraction <= 10000,
        ensures
            final(self).wf(),
            match r {
                Ok((in_used, out, _limit)) => {
                    &&& in_used.wf()
                    &&& out.wf()
                    &&& in_used.as_nat() <= headroom.as_nat()
                    &&& final(self).total_reserves == old(self).total_reserves
                    &&& {
                        let in_left = match side {
                            Side::Left => in_used.as_nat(),
                            Side::Right => 0,
                        };
                        let in_right = match side {
                            Side::Left => 0,
                            Side::Right => in_used.as_nat(),
                        };
                        let out_left = match side {
                            Side::Left => 0,
                            Side::Right => out.as_nat(),
                        };
                        let out_right = match side {
                            Side::Left => out.as_nat(),
                            Side::Right => 0,
                        };
                        &&& spec_sum_left(final(self).position_reserves@, 8)
                            + final(self).acc_lp_fee.0.as_nat() + out_left <= spec_sum_left(
                            old(self).position_reserves@,
                            8,
                        ) + old(self).acc_lp_fee.0.as_nat() + in_left
                        &&& spec_sum_right(final(self).position_reserves@, 8)
                            + final(self).acc_lp_fee.1.as_nat() + out_right <= spec_sum_right(
                            old(self).position_reserves@,
                            8,
                        ) + old(self).acc_lp_fee.1.as_nat() + in_right
                    }
                },
                Err(_) => {
                    &&& final(self).total_reserves == old(self).total_reserves
                    &&& {
                        let sl = spec_sum_left(final(self).position_reserves@, 8) + final(self).acc_lp_fee.0.as_nat();
                        let sr = spec_sum_right(final(self).position_reserves@, 8) + final(self).acc_lp_fee.1.as_nat();
                        let ol = spec_sum_left(old(self).position_reserves@, 8) + old(self).acc_lp_fee.0.as_nat();
                        let orr = spec_sum_right(old(self).position_reserves@, 8) + old(self).acc_lp_fee.1.as_nat();
                        match side {
                            Side::Left => sl <= ol + headroom.as_nat() && sr <= orr,
                            Side::Right => sr <= orr + headroom.as_nat() && sl <= ol,
                        }
                    }
                },
            },
    {
        let top = self.top_active_level;
        proof {
            assert(self.wf());
        }
        let cur_top_side = self.eff_sqrtprice(side, top).clone();
        let cur_top_ufp = price_to_ufp(&cur_top_side);
        // resolve the binding limit
        let mut limit = StepLimit::StepComplete;
        let mut target_ufp: Option<U256X256> = required_target;
        if top < 7 {
            let next_level_price = price_to_ufp(self.eff_sqrtprice(side, top + 1));
            let binds = match &target_ufp {
                Some(t) => !t.lt(&next_level_price),
                None => true,
            };
            if binds {
                target_ufp = Some(next_level_price);
                limit = StepLimit::LevelActivation;
            }
        }
        let nearest = self.nearest_active_ticks(side, top);
        if nearest.len() == 0 && top == 7 {
            return Err(ErrorKind::InsufficientLiquidity);
        }
        if nearest.len() > 0 {
            let (t_level, t_tick) = nearest[0];
            proof {
                assert(nearest@[0].0 < 8 && nearest@[0].1.spec_valid());
            }
            let tick_price = price_to_ufp(&t_tick.eff_sqrtprice(t_level, side));
            let binds = match &target_ufp {
                Some(t) => !t.lt(&tick_price),
                None => true,
            };
            if binds {
                target_ufp = Some(tick_price);
                limit = StepLimit::TickCrossing;
            }
        }
        let target = match target_ufp {
            Some(t) => t,
            None => {
                return Err(ErrorKind::InsufficientLiquidity);
            },
        };
        // the price never moves backwards
        let target = if target.lt(&cur_top_ufp) {
            cur_top_ufp.clone()
        } else {
            target
        };
        // narrow the target back to the price scale
        let target_narrow = match crate::fp::fp_narrow_limbs(target.raw(), 2, 4) {
            Some(limbs) => U128X128::from_raw(limbs),
            None => {
                return Err(ErrorKind::SwapAmountTooLarge);
            },
        };
        if target_narrow.is_zero() {
            return Err(ErrorKind::InternalLogicError);
        }
        // keep the pivot near the new price
        let new_pivot = match crate::price::find_pivot(self.pivot, &target_narrow) {
            Ok(p) => p,
            Err(e) => {
                return Err(e);
            },
        };
        self.pivot = new_pivot;
        // move the price of every active level, crediting the reserves
        let ghost pre = *self;
        let mut budget: U256X256 = headroom.clone();
        let mut out_acc: U256X256 = U256X256::zero();
        let mut level: u8 = 0;
        proof {
            crate::pool::lemma_sum_same(
                pre.position_reserves@,
                self.position_reserves@,
                8,
            );
        }
        while level <= top
            invariant
                self.wf(),
                top < 8,
                level <= top + 1,
                budget.wf(),
                out_acc.wf(),
                target_narrow.wf(),
                target_narrow.as_nat() > 0,
                self.pivot.spec_valid(),
                budget.as_nat() <= headroom.as_nat(),
                self.total_reserves == pre.total_reserves,
                self.acc_lp_fee == pre.acc_lp_fee,
                self.tick_states@ == pre.tick_states@,
                self.positions == pre.positions,
                pre.position_reserves@ == old(self).position_reserves@,
                pre.acc_lp_fee == old(self).acc_lp_fee,
                pre.total_reserves == old(self).total_reserves,
                headroom.wf(),
                (match side {
                    Side::Left => {
                        &&& spec_sum_left(self.position_reserves@, 8) <= spec_sum_left(
                            pre.position_reserves@,
                            8,
                        ) + (headroom.as_nat() - budget.as_nat())
                        &&& spec_sum_right(self.position_reserves@, 8) + out_acc.as_nat()
                            <= spec_sum_right(pre.position_reserves@, 8)
                    },
                    Side::Right => {
                        &&& spec_sum_right(self.position_reserves@, 8) <= spec_sum_right(
                            pre.position_reserves@,
                            8,
                        ) + (headroom.as_nat() - budget.as_nat())
                        &&& spec_sum_left(self.position_reserves@, 8) + out_acc.as_nat()
                            <= spec_sum_left(pre.position_reserves@, 8)
                    },
                }),
            decreases top + 1 - level,
        {
            let lvl = level as usize;
            let cur_side_l = self.eff_sqrtprice(side, level).clone();
            let opp = side.opposite();
            let cur_opp_l = self.eff_sqrtprice(opp, level).clone();
            // the new side price of this level
            let new_side_l = if target_narrow.lt(&cur_side_l) {
                cur_side_l.clone()
            } else {
                target_narrow.clone()
            };
            // the new opposite price, inverted about the pivot and clamped
            let new_opp_raw = match crate::price::eff_sqrtprice_opposite_side(
                &new_side_l,
                level,
                Some(self.pivot),
            ) {
                Ok(v) => v,
                Err(e) => {
                    return Err(e);
                },
            };
            let new_opp_l = if cur_opp_l.lt(&new_opp_raw) {
                cur_opp_l.clone()
            } else {
                new_opp_raw
            };
            // reserve credit on the in side, capped by the budget
            let net_ufp = liquidity_to_ufp(&self.net_liquidities[lvl]);
            let delta_in = new_side_l.sub(&cur_side_l);
            let add_raw = match price_to_ufp(&delta_in).checked_mul(&net_ufp) {
                Some(v) => v,
                None => {
                    return Err(ErrorKind::SwapAmountTooLarge);
                },
            };
            let add_applied = if budget.lt(&add_raw) {
                budget.clone()
            } else {
                add_raw
            };
            budget = budget.sub(&add_applied);
            // reserve release on the out side, capped by what is there
            let delta_out = cur_opp_l.sub(&new_opp_l);
            let sub_raw = match price_to_ufp(&delta_out).checked_mul(&net_ufp) {
                Some(v) => v,
                None => {
                    return Err(ErrorKind::SwapAmountTooLarge);
                },
            };
            let (pr_in_old, pr_out_old) = match side {
                Side::Left => (
                    self.position_reserves[lvl].0.clone(),
                    self.position_reserves[lvl].1.clone(),
                ),
                Side::Right => (
                    self.position_reserves[lvl].1.clone(),
                    self.position_reserves[lvl].0.clone(),
                ),
            };
            let sub_applied = if pr_out_old.lt(&sub_raw) {
                pr_out_old.clone()
            } else {
                sub_raw
            };
            let new_pr_in = match pr_in_old.checked_add(&add_applied) {
                Some(v) => v,
                None => {
                    return Err(ErrorKind::SwapAmountTooLarge);
                },
            };
            let new_pr_out = pr_out_old.sub(&sub_applied);
            out_acc = match out_acc.checked_add(&sub_applied) {
                Some(v) => v,
                None => {
                    return Err(ErrorKind::SwapAmountTooLarge);
                },
            };
            let new_pair = match side {
                Side::Left => (new_pr_in, new_pr_out),
                Side::Right => (new_pr_out, new_pr_in),
            };
            let ghost pr_before = self.position_reserves@;
            vec_replace(&mut self.position_reserves, lvl, new_pair);
            let new_prices = match side {
                Side::Left => EffectiveSqrtPrice::new(new_side_l, new_opp_l),
                Side::Right => EffectiveSqrtPrice::new(new_opp_l, new_side_l),
            };
            vec_replace(&mut self.eff_sqrtprices, lvl, new_prices);
            proof {
                lemma_sum_update(pr_before, self.position_reserves@, lvl as int, 8);
            }
            level = level + 1;
        }
        let in_used_so_far = headroom.sub(&budget);
        // accrue the LP fee on the price shift of the top level
        let shift = match crate::fp::fp_narrow_limbs(
            target.sub(&cur_top_ufp).raw(),
            2,
            4,
        ) {
            Some(limbs) => U128X128::from_raw(limbs),
            None => {
                return Err(ErrorKind::SwapAmountTooLarge);
            },
        };
        proof {
            lemma_pow2_pos(128);
        }
        let basis = U128X128::from_u128(10000);
        let lp_share = U128X128::from_u128((10000 - protocol_fee_fraction) as u128);
        let pfl_scaled = match shift.checked_mul(&lp_share) {
            Some(v) => v,
            None => {
                return Err(ErrorKind::SwapAmountTooLarge);
            },
        };
        let pfl = match pfl_scaled.checked_div(&basis) {
            Some(v) => v,
            None => {
                return Err(ErrorKind::InternalLogicError);
            },
        };
        let sum_fee_liq = match self.sum_fee_liquidities(top) {
            Ok(v) => v,
            Err(e) => {
                return Err(e);
            },
        };
        let sum_fee_liq_ufp = U256X256::from_raw(crate::fp::fp_widen_limbs(
            sum_fee_liq.raw(),
            1,
            8,
        ));
        let fee_raw = match price_to_ufp(&pfl).checked_mul(&sum_fee_liq_ufp) {
            Some(v) => v,
            None => {
                return Err(ErrorKind::SwapAmountTooLarge);
            },
        };
        let fee_applied = if budget.lt(&fee_raw) {
            budget.clone()
        } else {
            fee_raw
        };
        budget = budget.sub(&fee_applied);
        let new_acc_fee = match side {
            Side::Left => {
                match self.acc_lp_fee.0.checked_add(&fee_applied) {
                    Some(v) => (v, self.acc_lp_fee.1.clone()),
                    None => {
                        return Err(ErrorKind::SwapAmountTooLarge);
                    },
                }
            },
            Side::Right => {
                match self.acc_lp_fee.1.checked_add(&fee_applied) {
                    Some(v) => (self.acc_lp_fee.0.clone(), v),
                    None => {
                        return Err(ErrorKind::SwapAmountTooLarge);
                    },
                }
            },
        };
        // record the per-liquidity accumulator
        let pfl_signed = Signed::<U128X128>::from_unsigned(pfl);
        let cur_cell = match side {
            Side::Left => &self.acc_lp_fees_per_fee_liquidity[top as usize].0,
            Side::Right => &self.acc_lp_fees_per_fee_liquidity[top as usize].1,
        };
        let new_cell = match cur_cell.checked_add(&pfl_signed) {
            Some(v) => v,
            None => {
                return Err(ErrorKind::InternalLogicError);
            },
        };
        let new_cell_pair = match side {
            Side::Left => (new_cell, self.acc_lp_fees_per_fee_liquidity[top as usize].1.clone()),
            Side::Right => (self.acc_lp_fees_per_fee_liquidity[top as usize].0.clone(), new_cell),
        };
        self.acc_lp_fee = new_acc_fee;
        vec_replace(&mut self.acc_lp_fees_per_fee_liquidity, top as usize, new_cell_pair);
        let in_used = headroom.sub(&budget);
        // apply the limit event
        if limit == StepLimit::LevelActivation {
            self.top_active_level = top + 1;
        }
        if limit == StepLimit::TickCrossing {
            match self.tick_crossing(&nearest, side) {
                Ok(()) => {},
                Err(e) => {
                    return Err(e);
                },
            }
        }
        Ok((in_used, out_acc, limit))
    }
}

impl PoolV0 {
    /// The in-place body of the exact-in swap; [`PoolV0::swap_exact_in_impl`]
    /// runs it on a working copy.
    ///
    /// The input is charged in full up front; every reserve and fee credit
    /// during stepping is taken out of that charge, and the output is paid
    /// out of the opposite reserves rounded down, so the reserve invariant
    /// holds in every state this function can leave behind.
    #[verifier::rlimit(100)]
    fn swap_exact_in_inplace(
        &mut self,
        side: Side,
        amount_in: Amount,
        protocol_fee_fraction: u16,
    ) -> (r: Result<(Amount, Amount), ErrorKind>)
        requires
            old(self).wf(),
            old(self).reserve_invariant(),
            protocol_fee_fraction <= 10000,
        ensures
            final(self).wf(),
            final(self).reserve_invariant(),
            match r {
                Ok((a_in, a_out)) => {
                    &&& a_in == amount_in
                    &&& a_out > 0
                    &&& match side {
                        Side::Left => final(self).total_reserves.0 == old(self).total_reserves.0
                            + amount_in && final(self).total_reserves.1 == old(
                            self,
                        ).total_reserves.1 - a_out && a_out <= old(self).total_reserves.1,
                        Side::Right => final(self).total_reserves.1 == old(self).total_reserves.1
                            + amount_in && final(self).total_reserves.0 == old(
                            self,
                        ).total_reserves.0 - a_out && a_out <= old(self).total_reserves.0,
                    }
                },
                Err(_) => true,
            },
    {
        if amount_in == 0 {
            return Err(ErrorKind::InvalidParams);
        }
        if !self.is_spot_price_set() {
            return Err(ErrorKind::InsufficientLiquidity);
        }
        if !side_eq(self.active_side, side) {
            let new_pivot = match self.pivot.opposite(0) {
                Ok(p) => p,
                Err(_) => {
                    return Err(ErrorKind::InternalLogicError);
                },
            };
            self.top_active_level = 0;
            self.active_side = side;
            self.pivot = new_pivot;
        }
        // charge the input up front; all crediting during the steps is
        // capped by this amount
        let pre_total = match side {
            Side::Left => self.total_reserves.0,
            Side::Right => self.total_reserves.1,
        };
        let charged = match pre_total.checked_add(amount_in) {
            Some(v) => v,
            None => {
                return Err(ErrorKind::DepositWouldOverflow);
            },
        };
        let ghost entry = *self;
        match side {
            Side::Left => {
                self.total_reserves = (charged, self.total_reserves.1);
            },
            Side::Right => {
                self.total_reserves = (self.total_reserves.0, charged);
            },
        }
        proof {
            lemma_pow2_pos(256);
            assert((charged as nat) * pow2(256) == (pre_total as nat) * pow2(256) + (
            amount_in as nat) * pow2(256)) by (nonlinear_arith)
                requires
                    charged == pre_total + amount_in,
            ;
        }
        let mut headroom: U256X256 = crate::pool::amount_to_ufp(amount_in);
        let mut out_acc: U256X256 = U256X256::zero();
        let mut budget_steps: u32 = 65536;
        let ghost t_after_charge = self.total_reserves;
        loop
            invariant
                self.wf(),
                protocol_fee_fraction <= 10000,
                headroom.wf(),
                out_acc.wf(),
                self.total_reserves == t_after_charge,
                // the invariant holds with slack for the unspent charge on
                // the in side and the accumulated output on the out side
                (match side {
                    Side::Left => {
                        &&& (self.total_reserves.0 as nat) * pow2(256) >= spec_sum_left(
                            self.position_reserves@,
                            8,
                        ) + self.acc_lp_fee.0.as_nat() + headroom.as_nat()
                        &&& (self.total_reserves.1 as nat) * pow2(256) >= spec_sum_right(
                            self.position_reserves@,
                            8,
                        ) + self.acc_lp_fee.1.as_nat() + out_acc.as_nat()
                    },
                    Side::Right => {
                        &&& (self.total_reserves.1 as nat) * pow2(256) >= spec_sum_right(
                            self.position_reserves@,
                            8,
                        ) + self.acc_lp_fee.1.as_nat() + headroom.as_nat()
                        &&& (self.total_reserves.0 as nat) * pow2(256) >= spec_sum_left(
                            self.position_reserves@,
                            8,
                        ) + self.acc_lp_fee.0.as_nat() + out_acc.as_nat()
                    },
                }),
            decreases budget_steps,
        {
            if budget_steps == 0 {
                proof {
                    reserve_from_slack(self, side, headroom.as_nat(), out_acc.as_nat());
                }
                return Err(ErrorKind::InternalLogicError);
            }
            budget_steps = budget_steps - 1;
            let top = self.top_active_level;
            let sum_gross = match self.sum_gross_liquidities(top) {
                Ok(v) => v,
                Err(e) => {
                    proof {
                        reserve_from_slack(self, side, 0nat, out_acc.as_nat());
                    }
                    return Err(e);
                },
            };
            let required: Option<U256X256> = if sum_gross.is_zero() {
                None
            } else {
                let gross_ufp = U256X256::from_raw(crate::fp::fp_widen_limbs(
                    sum_gross.raw(),
                    1,
                    8,
                ));
                proof {
                    lemma_pow2_pos(64);
                    assert(gross_ufp.as_nat() > 0) by (nonlinear_arith)
                        requires
                            gross_ufp.as_nat() == sum_gross.as_nat() * pow2(64),
                            sum_gross.as_nat() > 0,
                            pow2(64) > 0,
                    ;
                }
                match headroom.checked_div(&gross_ufp) {
                    Some(shift) => {
                        let cur = price_to_ufp(self.eff_sqrtprice(side, top));
                        match cur.checked_add(&shift) {
                            Some(t) => Some(t),
                            None => None,
                        }
                    },
                    None => None,
                }
            };
            let (in_used, out_step, limit) = match self.swap_step(
                side,
                required,
                protocol_fee_fraction,
                &headroom,
            ) {
                Ok(v) => v,
                Err(e) => {
                    proof {
                        reserve_from_slack(self, side, 0nat, out_acc.as_nat());
                    }
                    return Err(e);
                },
            };
            let ghost hr_before = headroom.as_nat();
            headroom = headroom.sub(&in_used);
            proof {
                match side {
                    Side::Left => {
                        assert((self.total_reserves.0 as nat) * pow2(256) >= spec_sum_left(
                            self.position_reserves@,
                            8,
                        ) + self.acc_lp_fee.0.as_nat() + headroom.as_nat());
                        assert((self.total_reserves.1 as nat) * pow2(256) >= spec_sum_right(
                            self.position_reserves@,
                            8,
                        ) + self.acc_lp_fee.1.as_nat() + out_acc.as_nat() + out_step.as_nat());
                    },
                    Side::Right => {
                        assert((self.total_reserves.1 as nat) * pow2(256) >= spec_sum_right(
                            self.position_reserves@,
                            8,
                        ) + self.acc_lp_fee.1.as_nat() + headroom.as_nat());
                        assert((self.total_reserves.0 as nat) * pow2(256) >= spec_sum_left(
                            self.position_reserves@,
                            8,
                        ) + self.acc_lp_fee.0.as_nat() + out_acc.as_nat() + out_step.as_nat());
                    },
                }
            }
            out_acc = match out_acc.checked_add(&out_step) {
                Some(v) => v,
                None => {
                    proof {
                        reserve_from_slack(self, side, headroom.as_nat(), out_acc.as_nat());
                    }
                    return Err(ErrorKind::SwapAmountTooLarge);
                },
            };
            if limit == StepLimit::StepComplete {
                break;
            }
        }
        // pay the output out of the opposite reserves, rounded down
        let amount_out = match out_acc.try_to_u128_floor() {
            Some(v) => v,
            None => {
                proof {
                    reserve_from_slack(self, side, headroom.as_nat(), out_acc.as_nat());
                }
                return Err(ErrorKind::SwapAmountTooLarge);
            },
        };
        if amount_out == 0 {
            proof {
                reserve_from_slack(self, side, headroom.as_nat(), out_acc.as_nat());
            }
            return Err(ErrorKind::SwapAmountTooSmall);
        }
        let out_total = match side {
            Side::Left => self.total_reserves.1,
            Side::Right => self.total_reserves.0,
        };
        proof {
            lemma_pow2_pos(256);
            assert(U256X256::scale() == pow2(256));
            vstd::arithmetic::div_mod::lemma_fundamental_div_mod(
                out_acc.as_nat() as int,
                pow2(256) as int,
            );
            assert((amount_out as nat) * pow2(256) <= out_acc.as_nat()) by (nonlinear_arith)
                requires
                    (amount_out as nat) == out_acc.as_nat() / pow2(256),
                    (out_acc.as_nat() as int) == pow2(256) * ((out_acc.as_nat() / pow2(
                        256,
                    )) as int) + (out_acc.as_nat() % pow2(256)) as int,
                    out_acc.as_nat() % pow2(256) >= 0,
            ;
            assert((out_total as nat) * pow2(256) >= (amount_out as nat) * pow2(256));
            assert(out_total >= amount_out) by (nonlinear_arith)
                requires
                    (out_total as nat) * pow2(256) >= (amount_out as nat) * pow2(256),
                    pow2(256) > 0,
            ;
        }
        let new_out_total = out_total - amount_out;
        match side {
            Side::Left => {
                self.total_reserves = (self.total_reserves.0, new_out_total);
            },
            Side::Right => {
                self.total_reserves = (new_out_total, self.total_reserves.1);
            },
        }
        proof {
            lemma_pow2_pos(256);
            assert((new_out_total as nat) * pow2(256) == (out_total as nat) * pow2(256) - (
            amount_out as nat) * pow2(256)) by (nonlinear_arith)
                requires
                    new_out_total == out_total - amount_out,
            ;
        }
        Ok((amount_in, amount_out))
    }

    /// The in-place body of the exact-out swap; [`PoolV0::swap_exact_out`]
    /// runs it on a working copy.
    #[verifier::rlimit(100)]
    fn swap_exact_out_inplace(
        &mut self,
        side: Side,
        amount_out: Amount,
        max_amount_in: Amount,
        protocol_fee_fraction: u16,
    ) -> (r: Result<(Amount, Amount), ErrorKind>)
        requires
            old(self).wf(),
            old(self).reserve_invariant(),
            protocol_fee_fraction <= 10000,
        ensures
            final(self).wf(),
            final(self).reserve_invariant(),
            match r {
                Ok((a_in, a_out)) => {
                    &&& a_out == amount_out
                    &&& a_in <= max_amount_in
                    &&& match side {
                        Side::Left => final(self).total_reserves.0 == old(self).total_reserves.0
                            + a_in && final(self).total_reserves.1 == old(self).total_reserves.1
                            - a_out && a_out <= old(self).total_reserves.1,
                        Side::Right => final(self).total_reserves.1 == old(self).total_reserves.1
                            + a_in && final(self).total_reserves.0 == old(self).total_reserves.0
                            - a_out && a_out <= old(self).total_reserves.0,
                    }
                },
                Err(_) => true,
            },
    {
        if amount_out == 0 || max_amount_in == 0 {
            return Err(ErrorKind::InvalidParams);
        }
        if !self.is_spot_price_set() {
            return Err(ErrorKind::InsufficientLiquidity);
        }
        if !side_eq(self.active_side, side) {
            let new_pivot = match self.pivot.opposite(0) {
                Ok(p) => p,
                Err(_) => {
                    return Err(ErrorKind::InternalLogicError);
                },
            };
            self.top_active_level = 0;
            self.active_side = side;
            self.pivot = new_pivot;
        }
        // charge the full allowance up front; the unspent part is refunded
        let pre_total = match side {
            Side::Left => self.total_reserves.0,
            Side::Right => self.total_reserves.1,
        };
        let charged = match pre_total.checked_add(max_amount_in) {
            Some(v) => v,
            None => {
                return Err(ErrorKind::DepositWouldOverflow);
            },
        };
        match side {
            Side::Left => {
                self.total_reserves = (charged, self.total_reserves.1);
            },
            Side::Right => {
                self.total_reserves = (self.total_reserves.0, charged);
            },
        }
        proof {
            lemma_pow2_pos(256);
            assert((charged as nat) * pow2(256) == (pre_total as nat) * pow2(256) + (
            max_amount_in as nat) * pow2(256)) by (nonlinear_arith)
                requires
                    charged == pre_total + max_amount_in,
            ;
        }
        let mut headroom: U256X256 = crate::pool::amount_to_ufp(max_amount_in);
        let mut out_acc: U256X256 = U256X256::zero();
        let out_goal: U256X256 = crate::pool::amount_to_ufp(amount_out);
        let mut budget_steps: u32 = 65536;
        let ghost t_after_charge = self.total_reserves;
        loop
            invariant
                self.wf(),
                protocol_fee_fraction <= 10000,
                headroom.wf(),
                out_acc.wf(),
                out_goal.wf(),
                out_goal.as_nat() == (amount_out as nat) * pow2(256),
                self.total_reserves == t_after_charge,
                (match side {
                    Side::Left => {
                        &&& (self.total_reserves.0 as nat) * pow2(256) >= spec_sum_left(
                            self.position_reserves@,
                            8,
                        ) + self.acc_lp_fee.0.as_nat() + headroom.as_nat()
                        &&& (self.total_reserves.1 as nat) * pow2(256) >= spec_sum_right(
                            self.position_reserves@,
                            8,
                        ) + self.acc_lp_fee.1.as_nat() + out_acc.as_nat()
                    },
                    Side::Right => {
                        &&& (self.total_reserves.1 as nat) * pow2(256) >= spec_sum_right(
                            self.position_reserves@,
                            8,
                        ) + self.acc_lp_fee.1.as_nat() + headroom.as_nat()
                        &&& (self.total_reserves.0 as nat) * pow2(256) >= spec_sum_left(
                            self.position_reserves@,
                            8,
                        ) + self.acc_lp_fee.0.as_nat() + out_acc.as_nat()
                    },
                }),
            ensures
                out_acc.as_nat() >= out_goal.as_nat(),
            decreases budget_steps,
        {
            if !out_acc.lt(&out_goal) {
                break;
            }
            if budget_steps == 0 {
                proof {
                    reserve_from_slack(self, side, headroom.as_nat(), out_acc.as_nat());
                }
                return Err(ErrorKind::InternalLogicError);
            }
            budget_steps = budget_steps - 1;
            let top = self.top_active_level;
            // target derived from the missing output and the net liquidity
            let sum_net = match self.sum_net_liquidities_ufp(top) {
                Ok(v) => v,
                Err(e) => {
                    proof {
                        reserve_from_slack(self, side, 0nat, out_acc.as_nat());
                    }
                    return Err(e);
                },
            };
            let required: Option<U256X256> = if sum_net.is_zero() {
                None
            } else {
                let missing = out_goal.sub(&out_acc);
                match missing.checked_div(&sum_net) {
                    Some(opp_shift) => {
                        let opp = side.opposite();
                        let cur_opp = price_to_ufp(self.eff_sqrtprice(opp, top));
                        match cur_opp.checked_sub(&opp_shift) {
                            Some(target_opp) => {
                                match crate::fp::fp_narrow_limbs(target_opp.raw(), 2, 4) {
                                    Some(limbs) => {
                                        let t_opp = U128X128::from_raw(limbs);
                                        if t_opp.is_zero() {
                                            None
                                        } else {
                                            match crate::price::eff_sqrtprice_opposite_side(
                                                &t_opp,
                                                top,
                                                Some(self.pivot),
                                            ) {
                                                Ok(t_side) => Some(price_to_ufp(&t_side)),
                                                Err(_) => None,
                                            }
                                        }
                                    },
                                    None => None,
                                }
                            },
                            None => None,
                        }
                    },
                    None => None,
                }
            };
            let (in_used, out_step, _limit) = match self.swap_step(
                side,
                required,
                protocol_fee_fraction,
                &headroom,
            ) {
                Ok(v) => v,
                Err(e) => {
                    proof {
                        reserve_from_slack(self, side, 0nat, out_acc.as_nat());
                    }
                    return Err(e);
                },
            };
            let ghost hr_before = headroom.as_nat();
            headroom = headroom.sub(&in_used);
            proof {
                match side {
                    Side::Left => {
                        assert((self.total_reserves.0 as nat) * pow2(256) >= spec_sum_left(
                            self.position_reserves@,
                            8,
                        ) + self.acc_lp_fee.0.as_nat() + headroom.as_nat());
                        assert((self.total_reserves.1 as nat) * pow2(256) >= spec_sum_right(
                            self.position_reserves@,
                            8,
                        ) + self.acc_lp_fee.1.as_nat() + out_acc.as_nat() + out_step.as_nat());
                    },
                    Side::Right => {
                        assert((self.total_reserves.1 as nat) * pow2(256) >= spec_sum_right(
                            self.position_reserves@,
                            8,
                        ) + self.acc_lp_fee.1.as_nat() + headroom.as_nat());
                        assert((self.total_reserves.0 as nat) * pow2(256) >= spec_sum_left(
                            self.position_reserves@,
                            8,
                        ) + self.acc_lp_fee.0.as_nat() + out_acc.as_nat() + out_step.as_nat());
                    },
                }
            }
            out_acc = match out_acc.checked_add(&out_step) {
                Some(v) => v,
                None => {
                    proof {
                        reserve_from_slack(self, side, headroom.as_nat(), out_acc.as_nat());
                    }
                    return Err(ErrorKind::SwapAmountTooLarge);
                },
            };
            if in_used.is_zero() && out_step.is_zero() {
                // no progress is possible
                proof {
                    reserve_from_slack(self, side, headroom.as_nat(), out_acc.as_nat());
                }
                return Err(ErrorKind::InsufficientLiquidity);
            }
        }
        // refund the unspent allowance, rounded down in the pool's favour
        let unspent = match headroom.try_to_u128_floor() {
            Some(v) => v,
            None => {
                proof {
                    reserve_from_slack(self, side, headroom.as_nat(), out_acc.as_nat());
                }
                return Err(ErrorKind::InternalLogicError);
            },
        };
        let in_total = match side {
            Side::Left => self.total_reserves.0,
            Side::Right => self.total_reserves.1,
        };
        if in_total < unspent || unspent > max_amount_in {
            proof {
                reserve_from_slack(self, side, headroom.as_nat(), out_acc.as_nat());
            }
            return Err(ErrorKind::InternalLogicError);
        }
        let a_in = max_amount_in - unspent;
        let new_in_total = in_total - unspent;
        // pay out exactly the requested amount
        let out_total = match side {
            Side::Left => self.total_reserves.1,
            Side::Right => self.total_reserves.0,
        };
        proof {
            lemma_pow2_pos(256);
            assert(U256X256::scale() == pow2(256));
            vstd::arithmetic::div_mod::lemma_fundamental_div_mod(
                headroom.as_nat() as int,
                pow2(256) as int,
            );
            assert((unspent as nat) * pow2(256) <= headroom.as_nat()) by (nonlinear_arith)
                requires
                    (unspent as nat) == headroom.as_nat() / pow2(256),
                    (headroom.as_nat() as int) == pow2(256) * ((headroom.as_nat() / pow2(
                        256,
                    )) as int) + (headroom.as_nat() % pow2(256)) as int,
                    headroom.as_nat() % pow2(256) >= 0,
            ;
            assert((amount_out as nat) * pow2(256) <= out_acc.as_nat());
            assert((out_total as nat) * pow2(256) >= (amount_out as nat) * pow2(256));
            assert(out_total >= amount_out) by (nonlinear_arith)
                requires
                    (out_total as nat) * pow2(256) >= (amount_out as nat) * pow2(256),
                    pow2(256) > 0,
            ;
        }
        let new_out_total = out_total - amount_out;
        match side {
            Side::Left => {
                self.total_reserves = (new_in_total, new_out_total);
            },
            Side::Right => {
                self.total_reserves = (new_out_total, new_in_total);
            },
        }
        proof {
            lemma_pow2_pos(256);
            assert((new_in_total as nat) * pow2(256) == (in_total as nat) * pow2(256) - (
            unspent as nat) * pow2(256)) by (nonlinear_arith)
                requires
                    new_in_total == in_total - unspent,
            ;
            assert((new_out_total as nat) * pow2(256) == (out_total as nat) * pow2(256) - (
            amount_out as nat) * pow2(256)) by (nonlinear_arith)
                requires
                    new_out_total == out_total - amount_out,
            ;
        }
        Ok((a_in, amount_out))
    }

    /// Exact-in swap: pay `amount_in` of the `side` token, receive as much
    /// of the other token as the price path yields.  Runs on a working
    /// copy: an error leaves the pool exactly as it was.
    ///
    /// Returns `(amount_in, amount_out)`.
    pub fn swap_exact_in_impl(
        &mut self,
        side: Side,
        amount_in: Amount,
        protocol_fee_fraction: u16,
    ) -> (r: Result<(Amount, Amount), ErrorKind>)
        requires
            old(self).wf(),
            old(self).reserve_invariant(),
            protocol_fee_fraction <= 10000,
        ensures
            final(self).wf(),
            final(self).reserve_invariant(),
            match r {
                Ok((a_in, a_out)) => {
                    &&& a_in == amount_in
                    &&& a_out > 0
                    &&& match side {
                        Side::Left => final(self).total_reserves.0 == old(self).total_reserves.0
                            + amount_in && final(self).total_reserves.1 == old(
                            self,
                        ).total_reserves.1 - a_out && a_out <= old(self).total_reserves.1,
                        Side::Right => final(self).total_reserves.1 == old(self).total_reserves.1
                            + amount_in && final(self).total_reserves.0 == old(
                            self,
                        ).total_reserves.0 - a_out && a_out <= old(self).total_reserves.0,
                    }
                },
                Err(_) => *final(self) == *old(self),
            },
    {
        let mut work = self.snapshot();
        match work.swap_exact_in_inplace(side, amount_in, protocol_fee_fraction) {
            Ok(r) => {
                *self = work;
                Ok(r)
            },
            Err(e) => Err(e),
        }
    }

    /// Exact-out swap: receive exactly `amount_out` of the opposite token,
    /// paying at most `max_amount_in` of the `side` token; the actual
    /// charge is the consumed part of that allowance, rounded up.  Runs on
    /// a working copy: an error leaves the pool exactly as it was.
    ///
    /// Returns `(amount_in, amount_out)`.
    pub fn swap_exact_out(
        &mut self,
        side: Side,
        amount_out: Amount,
        max_amount_in: Amount,
        protocol_fee_fraction: u16,
    ) -> (r: Result<(Amount, Amount), ErrorKind>)
        requires
            old(self).wf(),
            old(self).reserve_invariant(),
            protocol_fee_fraction <= 10000,
        ensures
            final(self).wf(),
            final(self).reserve_invariant(),
            match r {
                Ok((a_in, a_out)) => {
                    &&& a_out == amount_out
                    &&& a_in <= max_amount_in
                    &&& match side {
                        Side::Left => final(self).total_reserves.0 == old(self).total_reserves.0
                            + a_in && final(self).total_reserves.1 == old(self).total_reserves.1
                            - a_out && a_out <= old(self).total_reserves.1,
                        Side::Right => final(self).total_reserves.1 == old(self).total_reserves.1
                            + a_in && final(self).total_reserves.0 == old(self).total_reserves.0
                            - a_out && a_out <= old(self).total_reserves.0,
                    }
                },
                Err(_) => *final(self) == *old(self),
            },
    {
        let mut work = self.snapshot();
        match work.swap_exact_out_inplace(side, amount_out, max_amount_in, protocol_fee_fraction) {
            Ok(r) => {
                *self = work;
                Ok(r)
            },
            Err(e) => Err(e),
        }
    }

    /// Swap dispatch on the exactness mode.  For an exact-in swap the
    /// amount is the input; for an exact-out swap it is the output and
    /// `limit` caps the input.
    pub fn swap(
        &mut self,
        side: Side,
        exact: Exact,
        amount: Amount,
        limit: Amount,
        protocol_fee_fraction: u16,
    ) -> (r: Result<(Amount, Amount), ErrorKind>)
        requires
            old(self).wf(),
            old(self).reserve_invariant(),
            protocol_fee_fraction <= 10000,
        ensures
            final(self).wf(),
            final(self).reserve_invariant(),
            r is Err ==> *final(self) == *old(self),
            match r {
                Ok((a_in, a_out)) => {
                    &&& (exact == Exact::In ==> a_in == amount && a_out > 0)
                    &&& (exact == Exact::Out ==> a_out == amount && a_in <= limit)
                    &&& match side {
                        Side::Left => final(self).total_reserves.0 == old(self).total_reserves.0
                            + a_in && final(self).total_reserves.1 == old(self).total_reserves.1
                            - a_out && a_out <= old(self).total_reserves.1,
                        Side::Right => final(self).total_reserves.1 == old(self).total_reserves.1
                            + a_in && final(self).total_reserves.0 == old(self).total_reserves.0
                            - a_out && a_out <= old(self).total_reserves.0,
                    }
                },
                Err(_) => true,
            },
    {
        match exact {
            Exact::In => self.swap_exact_in_impl(side, amount, protocol_fee_fraction),
            Exact::Out => self.swap_exact_out(side, amount, limit, protocol_fee_fraction),
        }
    }

    /// Withdraw the protocol's share: exactly the whole-unit part of what
    /// the total reserves hold above the position reserves and the accrued
    /// LP fees.  Under the reserve invariant this never fails.
    #[verifier::loop_isolation(false)]
    pub fn withdraw_protocol_fee(&mut self) -> (r: Result<(Amount, Amount), ErrorKind>)
        requires
            old(self).wf(),
            old(self).reserve_invariant(),
        ensures
            final(self).wf(),
            final(self).reserve_invariant(),
            match r {
                Ok((p0, p1)) => {
                    &&& final(self).total_reserves.0 == old(self).total_reserves.0 - p0
                    &&& final(self).total_reserves.1 == old(self).total_reserves.1 - p1
                    &&& (p0 as nat) == (((old(self).total_reserves.0 as nat) * pow2(256)
                        - spec_sum_left(old(self).position_reserves@, 8) - old(
                        self,
                    ).acc_lp_fee.0.as_nat()) as nat) / pow2(256)
                    &&& (p1 as nat) == (((old(self).total_reserves.1 as nat) * pow2(256)
                        - spec_sum_right(old(self).position_reserves@, 8) - old(
                        self,
                    ).acc_lp_fee.1.as_nat()) as nat) / pow2(256)
                    &&& final(self).position_reserves@ == old(self).position_reserves@
                    &&& final(self).acc_lp_fee == old(self).acc_lp_fee
                },
                Err(_) => false,
            },
    {
        proof {
            lemma_pow2_pos(256);
            lemma_pow2_adds(128, 128);
        }
        // sum the position reserves; the partial sums stay below the total
        let mut sum0 = U256X256::zero();
        let mut sum1 = U256X256::zero();
        let mut l: usize = 0;
        while l < 8
            invariant
                *self == *old(self),
                l <= 8,
                sum0.wf(),
                sum1.wf(),
                sum0.as_nat() == spec_sum_left(self.position_reserves@, l as int),
                sum1.as_nat() == spec_sum_right(self.position_reserves@, l as int),
            decreases 8 - l,
        {
            proof {
                crate::pool::lemma_sum_prefix_le(self.position_reserves@, l as int + 1, 8);
                lemma2_to64();
                lemma_pow2_adds(64, 64);
                assert(pow2(128) == 0x100000000000000000000000000000000nat);
                lemma_pow2_adds(128, 256);
                lemma_pow2_strictly_increases(384, 512);
                assert((self.total_reserves.0 as nat) * pow2(256) < pow2(128) * pow2(256))
                    by (nonlinear_arith)
                    requires
                        (self.total_reserves.0 as nat) < pow2(128),
                        pow2(256) > 0,
                ;
                assert((self.total_reserves.1 as nat) * pow2(256) < pow2(128) * pow2(256))
                    by (nonlinear_arith)
                    requires
                        (self.total_reserves.1 as nat) < pow2(128),
                        pow2(256) > 0,
                ;
            }
            sum0 = match sum0.checked_add(&self.position_reserves[l].0) {
                Some(v) => v,
                None => {
                    proof {
                        assert(false);
                    }
                    return Err(ErrorKind::InternalLogicError);
                },
            };
            sum1 = match sum1.checked_add(&self.position_reserves[l].1) {
                Some(v) => v,
                None => {
                    proof {
                        assert(false);
                    }
                    return Err(ErrorKind::InternalLogicError);
                },
            };
            l = l + 1;
        }
        let total0 = crate::pool::amount_to_ufp(self.total_reserves.0);
        let total1 = crate::pool::amount_to_ufp(self.total_reserves.1);
        let ex0 = match total0.checked_sub(&sum0) {
            Some(v) => match v.checked_sub(&self.acc_lp_fee.0) {
                Some(v2) => v2,
                None => {
                    proof {
                        assert(false);
                    }
                    return Err(ErrorKind::InternalLogicError);
                },
            },
            None => {
                proof {
                    assert(false);
                }
                return Err(ErrorKind::InternalLogicError);
            },
        };
        let ex1 = match total1.checked_sub(&sum1) {
            Some(v) => match v.checked_sub(&self.acc_lp_fee.1) {
                Some(v2) => v2,
                None => {
                    proof {
                        assert(false);
                    }
                    return Err(ErrorKind::InternalLogicError);
                },
            },
            None => {
                proof {
                    assert(false);
                }
                return Err(ErrorKind::InternalLogicError);
            },
        };
        proof {
            // the excess divided back down fits in a whole-unit amount
            assert(U256X256::scale() == pow2(256));
            lemma2_to64();
            lemma_pow2_adds(64, 64);
            assert(pow2(128) == 0x100000000000000000000000000000000nat);
            assert(((ex0.as_nat() / pow2(256)) as int) == (ex0.as_nat() as int) / (pow2(
                256,
            ) as int));
            assert(((ex1.as_nat() / pow2(256)) as int) == (ex1.as_nat() as int) / (pow2(
                256,
            ) as int));
            vstd::arithmetic::div_mod::lemma_div_is_ordered(
                ex0.as_nat() as int,
                ((self.total_reserves.0 as nat) * pow2(256)) as int,
                pow2(256) as int,
            );
            vstd::arithmetic::div_mod::lemma_div_by_multiple(
                self.total_reserves.0 as int,
                pow2(256) as int,
            );
            assert(((self.total_reserves.0 as nat) * pow2(256)) as int == (pow2(256) as int) * (
            self.total_reserves.0 as int)) by (nonlinear_arith);
            vstd::arithmetic::div_mod::lemma_div_is_ordered(
                ex1.as_nat() as int,
                ((self.total_reserves.1 as nat) * pow2(256)) as int,
                pow2(256) as int,
            );
            vstd::arithmetic::div_mod::lemma_div_by_multiple(
                self.total_reserves.1 as int,
                pow2(256) as int,
            );
            assert(((self.total_reserves.1 as nat) * pow2(256)) as int == (pow2(256) as int) * (
            self.total_reserves.1 as int)) by (nonlinear_arith);
        }
        let p0 = match ex0.try_to_u128_floor() {
            Some(v) => v,
            None => {
                proof {
                    lemma_pow2_pos(128);
                    assert(false);
                }
                return Err(ErrorKind::ConvOverflow);
            },
        };
        let p1 = match ex1.try_to_u128_floor() {
            Some(v) => v,
            None => {
                proof {
                    assert(false);
                }
                return Err(ErrorKind::ConvOverflow);
            },
        };
        if self.total_reserves.0 < p0 || self.total_reserves.1 < p1 {
            proof {
                assert(false);
            }
            return Err(ErrorKind::InternalLogicError);
        }
        let new_t0 = self.total_reserves.0 - p0;
        let new_t1 = self.total_reserves.1 - p1;
        let ghost pre = *self;
        self.total_reserves = (new_t0, new_t1);
        proof {
            assert(U256X256::scale() == pow2(256));
            vstd::arithmetic::div_mod::lemma_fundamental_div_mod(
                ex0.as_nat() as int,
                pow2(256) as int,
            );
            vstd::arithmetic::div_mod::lemma_fundamental_div_mod(
                ex1.as_nat() as int,
                pow2(256) as int,
            );
            assert((p0 as nat) * pow2(256) <= ex0.as_nat() && (p1 as nat) * pow2(256)
                <= ex1.as_nat()) by (nonlinear_arith)
                requires
                    (p0 as nat) == ex0.as_nat() / pow2(256),
                    (p1 as nat) == ex1.as_nat() / pow2(256),
                    (ex0.as_nat() as int) == pow2(256) * ((ex0.as_nat() / pow2(256)) as int) + (
                    ex0.as_nat() % pow2(256)) as int,
                    (ex1.as_nat() as int) == pow2(256) * ((ex1.as_nat() / pow2(256)) as int) + (
                    ex1.as_nat() % pow2(256)) as int,
                    ex0.as_nat() % pow2(256) >= 0,
                    ex1.as_nat() % pow2(256) >= 0,
            ;
            assert((new_t0 as nat) * pow2(256) == (pre.total_reserves.0 as nat) * pow2(256) - (
            p0 as nat) * pow2(256)) by (nonlinear_arith)
                requires
                    new_t0 == pre.total_reserves.0 - p0,
            ;
            assert((new_t1 as nat) * pow2(256) == (pre.total_reserves.1 as nat) * pow2(256) - (
            p1 as nat) * pow2(256)) by (nonlinear_arith)
                requires
                    new_t1 == pre.total_reserves.1 - p1,
            ;
        }
        Ok((p0, p1))
    }
}

/// Side equality without relying on derived trait code.
pub fn side_eq(a: Side, b: Side) -> (r: bool)
    ensures
        r <==> a == b,
{
    match (a, b) {
        (Side::Left, Side::Left) => true,
        (Side::Right, Side::Right) => true,
        _ => false,
    }
}

/// The reserve invariant follows from the slack-carrying loop invariant.
proof fn reserve_from_slack(p: &PoolV0, side: Side, headroom: nat, out_acc: nat)
    requires
        match side {
            Side::Left => {
                &&& (p.total_reserves.0 as nat) * pow2(256) >= spec_sum_left(
                    p.position_reserves@,
                    8,
                ) + p.acc_lp_fee.0.as_nat() + headroom
                &&& (p.total_reserves.1 as nat) * pow2(256) >= spec_sum_right(
                    p.position_reserves@,
                    8,
                ) + p.acc_lp_fee.1.as_nat() + out_acc
            },
            Side::Right => {
                &&& (p.total_reserves.1 as nat) * pow2(256) >= spec_sum_right(
                    p.position_reserves@,
                    8,
                ) + p.acc_lp_fee.1.as_nat() + headroom
                &&& (p.total_reserves.0 as nat) * pow2(256) >= spec_sum_left(
                    p.position_reserves@,
                    8,
                ) + p.acc_lp_fee.0.as_nat() + out_acc
            },
        },
    ensures
        p.reserve_invariant(),
{
}

} // verus!
