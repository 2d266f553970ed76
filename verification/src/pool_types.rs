//! Value types of the pool state machine.

use vstd::prelude::*;

use crate::fp::u128x128::U128X128;
use crate::fp::u192x64::U192X64;
use crate::fp::signed::{I128X128, I192X64, Signed};
use crate::tick::Tick;
use crate::util_types::Side;

verus! {

/// Per-tick bookkeeping of one fee level.
///
/// A tick state exists only while at least one position uses the tick as a
/// boundary; `reference_counter` counts those positions.
pub struct TickStateV0 {
    /// Signed liquidity to add to the active liquidity when the price
    /// crosses this tick leftward (to subtract when rightward).
    pub net_liquidity_change: I192X64,
    /// Number of open positions with this tick as a boundary.
    pub reference_counter: u32,
    /// Fee-per-fee-liquidity accumulated on the far side of this tick,
    /// one entry per swap side.
    pub acc_lp_fees_per_fee_liquidity_outside: (I128X128, I128X128),
}

impl TickStateV0 {
    pub open spec fn wf(&self) -> bool {
        &&& self.net_liquidity_change.valid()
        &&& self.acc_lp_fees_per_fee_liquidity_outside.0.valid()
        &&& self.acc_lp_fees_per_fee_liquidity_outside.1.valid()
    }

    pub fn new_default() -> (r: TickStateV0)
        ensures
            r.wf(),
            r.reference_counter == 0,
            r.net_liquidity_change.int_val() == 0,
            r.acc_lp_fees_per_fee_liquidity_outside.0.int_val() == 0,
            r.acc_lp_fees_per_fee_liquidity_outside.1.int_val() == 0,
    {
        TickStateV0 {
            net_liquidity_change: Signed::<U192X64>::zero(),
            reference_counter: 0,
            acc_lp_fees_per_fee_liquidity_outside: (
                Signed::<U128X128>::zero(),
                Signed::<U128X128>::zero(),
            ),
        }
    }

    pub fn clone(&self) -> (r: TickStateV0)
        requires
            self.wf(),
        ensures
            r.wf(),
            r.reference_counter == self.reference_counter,
            r.net_liquidity_change.int_val() == self.net_liquidity_change.int_val(),
            r.acc_lp_fees_per_fee_liquidity_outside.0.int_val()
                == self.acc_lp_fees_per_fee_liquidity_outside.0.int_val(),
            r.acc_lp_fees_per_fee_liquidity_outside.1.int_val()
                == self.acc_lp_fees_per_fee_liquidity_outside.1.int_val(),
    {
        TickStateV0 {
            net_liquidity_change: self.net_liquidity_change.clone(),
            reference_counter: self.reference_counter,
            acc_lp_fees_per_fee_liquidity_outside: (
                self.acc_lp_fees_per_fee_liquidity_outside.0.clone(),
                self.acc_lp_fees_per_fee_liquidity_outside.1.clone(),
            ),
        }
    }
}

/// The effective square-root price of a level, for both swap sides.
pub struct EffectiveSqrtPrice {
    pub left: U128X128,
    pub right: U128X128,
}

impl EffectiveSqrtPrice {
    pub open spec fn wf(&self) -> bool {
        self.left.wf() && self.right.wf()
    }

    pub fn new(left: U128X128, right: U128X128) -> (r: EffectiveSqrtPrice)
        requires
            left.wf(),
            right.wf(),
        ensures
            r.wf(),
            r.left.as_nat() == left.as_nat(),
            r.right.as_nat() == right.as_nat(),
    {
        EffectiveSqrtPrice { left, right }
    }

    pub fn zero() -> (r: EffectiveSqrtPrice)
        ensures
            r.wf(),
            r.left.as_nat() == 0,
            r.right.as_nat() == 0,
    {
        EffectiveSqrtPrice { left: U128X128::zero(), right: U128X128::zero() }
    }

    pub fn clone(&self) -> (r: EffectiveSqrtPrice)
        requires
            self.wf(),
        ensures
            r.wf(),
            r.left.as_nat() == self.left.as_nat(),
            r.right.as_nat() == self.right.as_nat(),
    {
        EffectiveSqrtPrice { left: self.left.clone(), right: self.right.clone() }
    }

    pub open spec fn spec_value(&self, side: Side) -> nat {
        match side {
            Side::Left => self.left.as_nat(),
            Side::Right => self.right.as_nat(),
        }
    }

    pub fn value(&self, side: Side) -> (r: &U128X128)
        requires
            self.wf(),
        ensures
            r.wf(),
            r.as_nat() == self.spec_value(side),
    {
        match side {
            Side::Left => &self.left,
            Side::Right => &self.right,
        }
    }

    /// Both effective prices of a tick on a fee level.
    pub fn from_tick(tick: &Tick, fee_level: u8) -> (r: EffectiveSqrtPrice)
        requires
            tick.spec_valid(),
            fee_level < 8,
        ensures
            r.wf(),
            r.left.as_nat() == crate::tick::spec_spot_sqrtprice(
                crate::tick::spec_eff_tick_index(tick.spec_index(), fee_level as int, Side::Left),
            ),
            r.right.as_nat() == crate::tick::spec_spot_sqrtprice(
                crate::tick::spec_eff_tick_index(tick.spec_index(), fee_level as int, Side::Right),
            ),
    {
        EffectiveSqrtPrice {
            left: tick.eff_sqrtprice(fee_level, Side::Left),
            right: tick.eff_sqrtprice(fee_level, Side::Right),
        }
    }
}

/// An open liquidity position.
pub struct PositionV0 {
    /// Fee level the position is open on.
    pub fee_level: u8,
    /// Accounted net liquidity.
    pub net_liquidity: U192X64,
    /// Fee accumulator snapshot at creation.
    pub init_acc_lp_fees_per_fee_liquidity: (I128X128, I128X128),
    /// Fee accumulator snapshot at the last fee withdrawal.
    pub unwithdrawn_acc_lp_fees_per_fee_liquidity: (I128X128, I128X128),
    /// Spot square-root price at creation.
    pub init_sqrtprice: U128X128,
    /// Tick range of the position.
    pub tick_bounds: (Tick, Tick),
}

impl PositionV0 {
    pub open spec fn wf(&self) -> bool {
        &&& self.fee_level < 8
        &&& self.net_liquidity.wf()
        &&& self.init_acc_lp_fees_per_fee_liquidity.0.valid()
        &&& self.init_acc_lp_fees_per_fee_liquidity.1.valid()
        &&& self.unwithdrawn_acc_lp_fees_per_fee_liquidity.0.valid()
        &&& self.unwithdrawn_acc_lp_fees_per_fee_liquidity.1.valid()
        &&& self.init_sqrtprice.wf()
        &&& self.tick_bounds.0.spec_valid()
        &&& self.tick_bounds.1.spec_valid()
        &&& self.tick_bounds.0.spec_index() < self.tick_bounds.1.spec_index()
    }
}

} // verus!
