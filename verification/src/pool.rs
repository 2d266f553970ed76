//! Pool state: per-fee-level prices, liquidity, tick bookkeeping, fees.
//!
//! A pool is *uninitialized* until the first position is opened (all
//! effective prices are zero) and returns to that state when the last
//! position is closed.  Two invariants are maintained throughout:
//! - a tick entry exists in a level's tick map exactly while its reference
//!   counter is positive (see [`TickStates::wf`] and
//!   [`PoolV0::lemma_tick_reference_counting`]);
//! - the pool's total reserves cover the position reserves plus the
//!   accrued LP fees; the excess is the protocol fee
//!   ([`PoolV0::reserve_invariant`]).

use vstd::prelude::*;
use vstd::arithmetic::power2::*;

use crate::errors::ErrorKind;
use crate::fp::u128x128::U128X128;
use crate::fp::u192x64::U192X64;
use crate::fp::u256x256::U256X256;
use crate::fp::signed::{I128X128, I192X64, Signed};
use crate::fp::fp_widen_limbs;
use crate::kv_map::KvMap;
use crate::pool_types::{TickStateV0, EffectiveSqrtPrice, PositionV0};
use crate::tick::{Tick, EffTick, MIN_TICK, MAX_TICK};
use crate::tick_map::TickStates;
use crate::util_types::Side;

verus! {

/// Token amount, in minimal token units.
pub type Amount = u128;

/// Where the current price stands relative to a position's tick range.
#[derive(Clone, Copy, Debug, PartialEq, Eq, Structural)]
pub enum RangeCmp {
    Below,
    Within,
    Above,
}

/// An amount held in unsigned fixed point with 256 fractional bits.
pub open spec fn spec_amount_scale() -> nat {
    pow2(256)
}

/// Exact widening of a `u128` amount into the amount fixed point.
pub fn amount_to_ufp(a: u128) -> (r: U256X256)
    ensures
        r.wf(),
        r.as_nat() == (a as nat) * pow2(256),
{
    let r = U256X256::from_u128(a);
    proof {
        assert(U256X256::scale() == pow2(256));
    }
    r
}

/// Exact widening of a net liquidity value into the amount fixed point.
pub fn liquidity_to_ufp(l: &U192X64) -> (r: U256X256)
    requires
        l.wf(),
    ensures
        r.wf(),
        r.as_nat() == l.as_nat() * pow2(192),
{
    U256X256::from_raw(fp_widen_limbs(l.raw(), 3, 8))
}

/// Exact widening of a price value into the amount fixed point.
pub fn price_to_ufp(p: &U128X128) -> (r: U256X256)
    requires
        p.wf(),
    ensures
        r.wf(),
        r.as_nat() == p.as_nat() * pow2(128),
{
    U256X256::from_raw(fp_widen_limbs(p.raw(), 2, 8))
}

/// The integer amount covering `a`: `ceil(a)`, or `None` past `u128::MAX`.
pub fn ufp_ceil_to_amount(a: &U256X256) -> (r: Option<u128>)
    requires
        a.wf(),
    ensures
        match r {
            Some(v) => (v as nat) * pow2(256) >= a.as_nat() && (v as nat) == ((a.as_nat() + pow2(256) - 1) as nat) / pow2(256),
            None => ((a.as_nat() + pow2(256) - 1) as nat) / pow2(256) >= pow2(128),
        },
{
    proof {
        lemma_pow2_pos(256);
    }
    let fl = match a.try_to_u128_floor() {
        Some(v) => v,
        None => {
            proof {
                lemma_pow2_pos(128);
                vstd::arithmetic::div_mod::lemma_div_is_ordered(
                    a.as_nat() as int,
                    (a.as_nat() + pow2(256) - 1) as int,
                    pow2(256) as int,
                );
                assert(U256X256::scale() == pow2(256));
                assert((((a.as_nat() + pow2(256) - 1) as nat) / pow2(256)) as int == ((
                a.as_nat() as int) + (pow2(256) as int) - 1) / (pow2(256) as int));
                assert((a.as_nat() / pow2(256)) as int == (a.as_nat() as int) / (pow2(
                    256,
                ) as int));
            }
            return None;
        },
    };
    let fr = a.fract();
    proof {
        assert(U256X256::scale() == pow2(256));
        vstd::arithmetic::div_mod::lemma_fundamental_div_mod(
            a.as_nat() as int,
            pow2(256) as int,
        );
    }
    let ghost av = a.as_nat() as int;
    let ghost p = pow2(256) as int;
    proof {
        assert(av == p * (av / p) + av % p);
        assert((fl as int) == av / p);
        assert(((fl as nat) * pow2(256)) as int == p * (fl as int)) by (nonlinear_arith)
            requires
                p == pow2(256) as int,
        ;
    }
    if fr.is_zero() {
        proof {
            // a is an exact multiple: ceil == floor
            assert(av % p == 0);
            assert(p * (fl as int) == (fl as int) * p) by (nonlinear_arith);
            vstd::arithmetic::div_mod::lemma_fundamental_div_mod_converse(
                av + p - 1,
                p,
                fl as int,
                p - 1,
            );
            assert((av + p - 1) / p == fl as int);
            assert(((a.as_nat() + pow2(256) - 1) as nat) as int == av + p - 1);
            assert((fl as nat) * pow2(256) >= a.as_nat());
            assert((((a.as_nat() + pow2(256) - 1) as nat) / pow2(256)) as int == (av + p - 1)
                / p);
            assert((fl as nat) == ((a.as_nat() + pow2(256) - 1) as nat) / pow2(256));
        }
        Some(fl)
    } else {
        proof {
            assert((a.as_nat() % pow2(256)) as int == av % p);
            assert(av % p >= 1);
        }
        if fl == u128::MAX {
            proof {
                lemma_pow2_adds(128, 128);
                lemma_pow2_adds(64, 64);
                lemma2_to64();
                assert(pow2(128) == 0x100000000000000000000000000000000nat);
                assert(pow2(128) * pow2(128) == pow2(256));
                assert(p * (fl as int + 1) == p * (fl as int) + p) by (nonlinear_arith);
                vstd::arithmetic::div_mod::lemma_fundamental_div_mod_converse(
                    av + p - 1,
                    p,
                    fl as int + 1,
                    av % p - 1,
                );
                assert((((a.as_nat() + pow2(256) - 1) as nat) / pow2(256)) as int == (av + p
                    - 1) / p);
            }
            None
        } else {
            proof {
                assert(p * (fl as int + 1) == p * (fl as int) + p) by (nonlinear_arith);
                vstd::arithmetic::div_mod::lemma_fundamental_div_mod_converse(
                    av + p - 1,
                    p,
                    fl as int + 1,
                    av % p - 1,
                );
                assert((((fl + 1) as nat) * pow2(256)) as int == p * (fl as int + 1))
                    by (nonlinear_arith)
                    requires
                        p == pow2(256) as int,
                        fl < u128::MAX,
                ;
                assert((((a.as_nat() + pow2(256) - 1) as nat) / pow2(256)) as int == (av + p
                    - 1) / p);
            }
            Some(fl + 1)
        }
    }
}

/// Position balance on one side: the token amount its liquidity holds given
/// the current effective price and the range bounds on that side.
pub fn balance_one_side(
    net_liquidity: &U192X64,
    lower: &U128X128,
    upper: &U128X128,
    eff: &U128X128,
) -> (r: Result<U256X256, ErrorKind>)
    requires
        net_liquidity.wf(),
        lower.wf(),
        upper.wf(),
        eff.wf(),
    ensures
        match r {
            Ok(v) => {
                &&& v.wf()
                &&& v.as_nat() == spec_balance_one_side(
                    net_liquidity.as_nat(),
                    lower.as_nat(),
                    upper.as_nat(),
                    eff.as_nat(),
                )
            },
            Err(e) => e == ErrorKind::ConvOverflow,
        },
{
    if !lower.lt(eff) {
        Ok(U256X256::zero())
    } else {
        let bound = if eff.lt(upper) {
            eff
        } else {
            upper
        };
        let l_ufp = liquidity_to_ufp(net_liquidity);
        let lower_ufp = price_to_ufp(lower);
        let bound_ufp = price_to_ufp(bound);
        proof {
            lemma_pow2_pos(128);
            assert(bound_ufp.as_nat() < lower_ufp.as_nat() <==> bound.as_nat() < lower.as_nat())
                by (nonlinear_arith)
                requires
                    bound_ufp.as_nat() == bound.as_nat() * pow2(128),
                    lower_ufp.as_nat() == lower.as_nat() * pow2(128),
                    pow2(128) > 0,
            ;
        }
        if bound_ufp.lt(&lower_ufp) {
            // the range is inverted: no balance is held
            Ok(U256X256::zero())
        } else {
            let diff = bound_ufp.sub(&lower_ufp);
            proof {
                assert(diff.as_nat() == ((bound.as_nat() - lower.as_nat()) as nat) * pow2(128))
                    by (nonlinear_arith)
                    requires
                        diff.as_nat() == bound.as_nat() * pow2(128) - lower.as_nat() * pow2(128),
                        bound.as_nat() >= lower.as_nat(),
                ;
            }
            match l_ufp.checked_mul(&diff) {
                Some(v) => {
                    proof {
                        assert(U256X256::scale() == pow2(256));
                    }
                    Ok(v)
                },
                None => Err(ErrorKind::ConvOverflow),
            }
        }
    }
}

/// Mathematical form of [`balance_one_side`], over raw values.
pub open spec fn spec_balance_one_side(net: nat, lower: nat, upper: nat, eff: nat) -> nat {
    if eff <= lower {
        0
    } else {
        let bound = if eff < upper {
            eff
        } else {
            upper
        };
        if bound < lower {
            0
        } else {
            ((net * pow2(192)) * ((bound - lower) as nat * pow2(128))) / pow2(256)
        }
    }
}

/// Sum of the left components of per-level position reserves.
pub open spec fn spec_sum_left(s: Seq<(U256X256, U256X256)>, n: int) -> nat
    decreases n,
{
    if n <= 0 {
        0
    } else {
        spec_sum_left(s, n - 1) + s[n - 1].0.as_nat()
    }
}

/// Sum of the right components of per-level position reserves.
pub open spec fn spec_sum_right(s: Seq<(U256X256, U256X256)>, n: int) -> nat
    decreases n,
{
    if n <= 0 {
        0
    } else {
        spec_sum_right(s, n - 1) + s[n - 1].1.as_nat()
    }
}

/// Changing one level's reserves changes the sum by exactly the difference.
pub proof fn lemma_sum_update(
    s: Seq<(U256X256, U256X256)>,
    s2: Seq<(U256X256, U256X256)>,
    i: int,
    n: int,
)
    requires
        0 <= i < n <= s.len(),
        s2.len() == s.len(),
        forall|j: int| 0 <= j < s.len() && j != i ==> s2[j] == s[j],
    ensures
        spec_sum_left(s2, n) + s[i].0.as_nat() == spec_sum_left(s, n) + s2[i].0.as_nat(),
        spec_sum_right(s2, n) + s[i].1.as_nat() == spec_sum_right(s, n) + s2[i].1.as_nat(),
    decreases n,
{
    if n - 1 == i {
        lemma_sum_same(s, s2, n - 1);
    } else {
        lemma_sum_update(s, s2, i, n - 1);
    }
}

/// A prefix sum never exceeds a longer one.
pub proof fn lemma_sum_prefix_le(s: Seq<(U256X256, U256X256)>, m: int, n: int)
    requires
        0 <= m <= n <= s.len(),
    ensures
        spec_sum_left(s, m) <= spec_sum_left(s, n),
        spec_sum_right(s, m) <= spec_sum_right(s, n),
    decreases n,
{
    if n > m {
        lemma_sum_prefix_le(s, m, n - 1);
    }
}

/// Sums agree on a prefix where the sequences agree.
pub proof fn lemma_sum_same(s: Seq<(U256X256, U256X256)>, s2: Seq<(U256X256, U256X256)>, n: int)
    requires
        n <= s.len(),
        n <= s2.len(),
        forall|j: int| 0 <= j < n ==> s2[j] == s[j],
    ensures
        spec_sum_left(s2, n) == spec_sum_left(s, n),
        spec_sum_right(s2, n) == spec_sum_right(s, n),
    decreases n,
{
    if n > 0 {
        lemma_sum_same(s, s2, n - 1);
    }
}

/// One pool: liquidity positions on eight parallel fee levels over one
/// token pair.
pub struct PoolV0 {
    /// Positions of this pool, by position id.
    pub positions: KvMap<PositionV0>,
    /// Tick states, one ordered map per fee level.
    pub tick_states: Vec<TickStates>,
    /// Total token amounts held: positions, LP fees and protocol fees.
    pub total_reserves: (Amount, Amount),
    /// Token amounts locked in positions, per fee level.
    pub position_reserves: Vec<(U256X256, U256X256)>,
    /// LP fee amounts accrued and not yet withdrawn.
    pub acc_lp_fee: (U256X256, U256X256),
    /// Per-level, per-side accumulated LP fee per unit of fee liquidity.
    pub acc_lp_fees_per_fee_liquidity: Vec<(I128X128, I128X128)>,
    /// Effective square-root price of each level.
    pub eff_sqrtprices: Vec<EffectiveSqrtPrice>,
    /// Nearest active tick ahead of a leftward swap, per level.
    pub next_active_ticks_left: Vec<Option<Tick>>,
    /// Nearest active tick ahead of a rightward swap, per level.
    pub next_active_ticks_right: Vec<Option<Tick>>,
    /// Active net liquidity per level.
    pub net_liquidities: Vec<U192X64>,
    /// Highest fee level reached by the current price.
    pub top_active_level: u8,
    /// Side of the most recent swap.
    pub active_side: Side,
    /// Pivot tick used for price inversion.
    pub pivot: EffTick,
}

impl PoolV0 {
    pub open spec fn wf(&self) -> bool {
        &&& self.positions.wf_keys()
        &&& (forall|k: u64|
            self.positions.spec_contains(k) ==> (#[trigger] self.positions.spec_at(k)).wf())
        &&& self.tick_states@.len() == 8
        &&& (forall|l: int| 0 <= l < 8 ==> (#[trigger] self.tick_states@[l]).wf())
        &&& (forall|l: int, t: int|
            0 <= l < 8 && #[trigger] self.tick_states@[l].spec_contains(t) ==> MIN_TICK <= t
                <= MAX_TICK)
        &&& self.position_reserves@.len() == 8
        &&& (forall|l: int|
            0 <= l < 8 ==> (#[trigger] self.position_reserves@[l]).0.wf()
                && self.position_reserves@[l].1.wf())
        &&& self.acc_lp_fee.0.wf()
        &&& self.acc_lp_fee.1.wf()
        &&& self.acc_lp_fees_per_fee_liquidity@.len() == 8
        &&& (forall|l: int|
            0 <= l < 8 ==> (#[trigger] self.acc_lp_fees_per_fee_liquidity@[l]).0.valid()
                && self.acc_lp_fees_per_fee_liquidity@[l].1.valid())
        &&& self.eff_sqrtprices@.len() == 8
        &&& (forall|l: int| 0 <= l < 8 ==> (#[trigger] self.eff_sqrtprices@[l]).wf())
        &&& self.next_active_ticks_left@.len() == 8
        &&& (forall|l: int|
            0 <= l < 8 ==> (match #[trigger] self.next_active_ticks_left@[l] {
                Some(t) => t.spec_valid(),
                None => true,
            }))
        &&& self.next_active_ticks_right@.len() == 8
        &&& (forall|l: int|
            0 <= l < 8 ==> (match #[trigger] self.next_active_ticks_right@[l] {
                Some(t) => t.spec_valid(),
                None => true,
            }))
        &&& self.net_liquidities@.len() == 8
        &&& (forall|l: int| 0 <= l < 8 ==> (#[trigger] self.net_liquidities@[l]).wf())
        &&& self.top_active_level < 8
        &&& self.pivot.spec_valid()
    }

    /// Total reserves cover position reserves plus accrued LP fees; the
    /// difference is the protocol fee.
    pub open spec fn reserve_invariant(&self) -> bool {
        &&& (self.total_reserves.0 as nat) * pow2(256) >= spec_sum_left(
            self.position_reserves@,
            8,
        ) + self.acc_lp_fee.0.as_nat()
        &&& (self.total_reserves.1 as nat) * pow2(256) >= spec_sum_right(
            self.position_reserves@,
            8,
        ) + self.acc_lp_fee.1.as_nat()
    }

    /// Reference count of a tick on a level; zero when the tick has no entry.
    pub open spec fn spec_reference_count(&self, level: int, t: int) -> nat {
        if self.tick_states@[level].spec_contains(t) {
            self.tick_states@[level].spec_at(t).reference_counter as nat
        } else {
            0
        }
    }

    /// A tick entry exists on a level exactly while its reference counter
    /// is positive.
    pub proof fn lemma_tick_reference_counting(&self, level: int, t: int)
        requires
            self.wf(),
            0 <= level < 8,
        ensures
            self.tick_states@[level].spec_contains(t) <==> self.spec_reference_count(level, t)
                > 0,
    {
        if self.tick_states@[level].spec_contains(t) {
            let j = self.tick_states@[level].spec_idx(t);
            assert(self.tick_states@[level].entries@[j].0 == t);
        }
    }

    /// A new, uninitialized pool.
    pub fn new() -> (r: PoolV0)
        ensures
            r.wf(),
            r.reserve_invariant(),
            r.total_reserves.0 == 0 && r.total_reserves.1 == 0,
            forall|l: int, t: int|
                0 <= l < 8 ==> !#[trigger] r.tick_states@[l].spec_contains(t),
            forall|k: u64| !r.positions.spec_contains(k),
            !r.spec_price_set(),
    {
        let mut tick_states: Vec<TickStates> = Vec::new();
        let mut position_reserves: Vec<(U256X256, U256X256)> = Vec::new();
        let mut acc_fees: Vec<(I128X128, I128X128)> = Vec::new();
        let mut prices: Vec<EffectiveSqrtPrice> = Vec::new();
        let mut nal: Vec<Option<Tick>> = Vec::new();
        let mut nar: Vec<Option<Tick>> = Vec::new();
        let mut liqs: Vec<U192X64> = Vec::new();
        let mut i: usize = 0;
        while i < 8
            invariant
                i <= 8,
                tick_states@.len() == i,
                forall|l: int| 0 <= l < i ==> (#[trigger] tick_states@[l]).wf(),
                forall|l: int, t: int|
                    0 <= l < i ==> !#[trigger] tick_states@[l].spec_contains(t),
                position_reserves@.len() == i,
                forall|l: int|
                    0 <= l < i ==> (#[trigger] position_reserves@[l]).0.wf()
                        && position_reserves@[l].1.wf() && position_reserves@[l].0.as_nat() == 0
                        && position_reserves@[l].1.as_nat() == 0,
                acc_fees@.len() == i,
                forall|l: int|
                    0 <= l < i ==> (#[trigger] acc_fees@[l]).0.valid() && acc_fees@[l].1.valid(),
                prices@.len() == i,
                forall|l: int|
                    0 <= l < i ==> (#[trigger] prices@[l]).wf() && prices@[l].left.as_nat() == 0,
                nal@.len() == i,
                forall|l: int| 0 <= l < i ==> (#[trigger] nal@[l]) is None,
                nar@.len() == i,
                forall|l: int| 0 <= l < i ==> (#[trigger] nar@[l]) is None,
                liqs@.len() == i,
                forall|l: int| 0 <= l < i ==> (#[trigger] liqs@[l]).wf(),
            decreases 8 - i,
        {
            tick_states.push(TickStates::new());
            position_reserves.push((U256X256::zero(), U256X256::zero()));
            acc_fees.push((Signed::<U128X128>::zero(), Signed::<U128X128>::zero()));
            prices.push(EffectiveSqrtPrice::zero());
            nal.push(None);
            nar.push(None);
            liqs.push(U192X64::zero());
            i = i + 1;
        }
        let r = PoolV0 {
            positions: KvMap::new(),
            tick_states,
            total_reserves: (0, 0),
            position_reserves,
            acc_lp_fee: (U256X256::zero(), U256X256::zero()),
            acc_lp_fees_per_fee_liquidity: acc_fees,
            eff_sqrtprices: prices,
            next_active_ticks_left: nal,
            next_active_ticks_right: nar,
            net_liquidities: liqs,
            top_active_level: 0,
            active_side: Side::Left,
            pivot: EffTick::origin(),
        };
        proof {
            lemma_sum_zero(r.position_reserves@, 8);
        }
        r
    }

    /// No tick map on any level holds an entry.
    pub open spec fn spec_no_active_ticks(&self) -> bool {
        forall|l: int| 0 <= l < 8 ==> (#[trigger] self.tick_states@[l]).entries@.len() == 0
    }

    /// The pool has a price, i.e. at least one position was ever opened and
    /// not all were closed.
    pub open spec fn spec_price_set(&self) -> bool {
        self.eff_sqrtprices@[0].left.as_nat() != 0
    }

    pub fn is_spot_price_set(&self) -> (r: bool)
        requires
            self.wf(),
        ensures
            r <==> self.spec_price_set(),
    {
        !self.eff_sqrtprices[0].left.is_zero()
    }

    /// Whether any position is open on any level, judged by active ticks.
    pub fn contains_any_positions(&self) -> (r: bool)
        requires
            self.wf(),
        ensures
            r <==> exists|l: int| 0 <= l < 8 && (#[trigger] self.tick_states@[l]).entries@.len()
                > 0,
    {
        let mut l: usize = 0;
        while l < 8
            invariant
                self.wf(),
                l <= 8,
                forall|j: int| 0 <= j < l ==> (#[trigger] self.tick_states@[j]).entries@.len()
                    == 0,
            decreases 8 - l,
        {
            if !self.tick_states[l].is_empty() {
                proof {
                    assert(self.tick_states@[l as int].entries@.len() > 0);
                }
                return true;
            }
            l = l + 1;
        }
        false
    }

    /// Effective square-root price of a level for a swap side.
    pub fn eff_sqrtprice(&self, side: Side, fee_level: u8) -> (r: &U128X128)
        requires
            self.wf(),
            fee_level < 8,
        ensures
            r.wf(),
            r.as_nat() == self.eff_sqrtprices@[fee_level as int].spec_value(side),
    {
        self.eff_sqrtprices[fee_level as usize].value(side)
    }
}

/// The sum of all-zero reserves is zero.
pub proof fn lemma_sum_zero(s: Seq<(U256X256, U256X256)>, n: int)
    requires
        n <= s.len(),
        forall|j: int| 0 <= j < n ==> (#[trigger] s[j]).0.as_nat() == 0 && s[j].1.as_nat() == 0,
    ensures
        spec_sum_left(s, n) == 0,
        spec_sum_right(s, n) == 0,
    decreases n,
{
    if n > 0 {
        lemma_sum_zero(s, n - 1);
    }
}

impl PoolV0 {
    /// A deep working copy of the pool.  The copy is well-formed, carries
    /// the same reserves, fees, prices and tick bookkeeping, and satisfies
    /// the reserve invariant whenever the source does; operations run the
    /// copy and commit it only on success, which makes them all-or-nothing.
    #[verifier::loop_isolation(false)]
    pub fn snapshot(&self) -> (r: PoolV0)
        requires
            self.wf(),
        ensures
            r.wf(),
            r.total_reserves == self.total_reserves,
            r.acc_lp_fee.0.as_nat() == self.acc_lp_fee.0.as_nat(),
            r.acc_lp_fee.1.as_nat() == self.acc_lp_fee.1.as_nat(),
            forall|l: int|
                0 <= l < 8 ==> (#[trigger] r.position_reserves@[l]).0.as_nat()
                    == self.position_reserves@[l].0.as_nat() && r.position_reserves@[l].1.as_nat()
                    == self.position_reserves@[l].1.as_nat(),
            spec_sum_left(r.position_reserves@, 8) == spec_sum_left(self.position_reserves@, 8),
            spec_sum_right(r.position_reserves@, 8) == spec_sum_right(self.position_reserves@, 8),
            self.reserve_invariant() ==> r.reserve_invariant(),
            r.spec_price_set() <==> self.spec_price_set(),
    {
        let mut positions: KvMap<PositionV0> = KvMap::new();
        let mut i: usize = 0;
        while i < self.positions.entries.len()
            invariant
                positions.wf_keys(),
                i <= self.positions.entries@.len(),
                forall|k: u64|
                    positions.spec_contains(k) ==> (#[trigger] positions.spec_at(k)).wf(),
                forall|k: u64|
                    positions.spec_contains(k) ==> self.positions.spec_contains(k),
            decreases self.positions.entries@.len() - i,
        {
            let key = self.positions.entries[i].0;
            let pos = &self.positions.entries[i].1;
            proof {
                assert(self.positions.entries@[i as int].0 == key);
                assert(self.positions.spec_contains(key));
                let j = self.positions.spec_idx(key);
                if j != i as int {
                    assert(self.positions.entries@[j].0 != self.positions.entries@[i as int].0);
                }
                assert(self.positions.spec_at(key).wf());
            }
            if !positions.contains_key(key) {
                let copy = PositionV0 {
                    fee_level: pos.fee_level,
                    net_liquidity: pos.net_liquidity.clone(),
                    init_acc_lp_fees_per_fee_liquidity: (
                        pos.init_acc_lp_fees_per_fee_liquidity.0.clone(),
                        pos.init_acc_lp_fees_per_fee_liquidity.1.clone(),
                    ),
                    unwithdrawn_acc_lp_fees_per_fee_liquidity: (
                        pos.unwithdrawn_acc_lp_fees_per_fee_liquidity.0.clone(),
                        pos.unwithdrawn_acc_lp_fees_per_fee_liquidity.1.clone(),
                    ),
                    init_sqrtprice: pos.init_sqrtprice.clone(),
                    tick_bounds: pos.tick_bounds,
                };
                positions.insert_new(key, copy);
            }
            i = i + 1;
        }
        let mut tick_states: Vec<TickStates> = Vec::new();
        let mut l: usize = 0;
        while l < 8
            invariant
                l <= 8,
                tick_states@.len() == l,
                forall|j: int| 0 <= j < l ==> (#[trigger] tick_states@[j]).wf(),
                forall|j: int, t: int|
                    0 <= j < l && #[trigger] tick_states@[j].spec_contains(t) ==> MIN_TICK <= t
                        <= MAX_TICK,
            decreases 8 - l,
        {
            let src = &self.tick_states[l];
            let mut dst = TickStates::new();
            let mut e: usize = 0;
            while e < src.entries.len()
                invariant
                    dst.wf(),
                    e <= src.entries@.len(),
                    forall|t: int|
                        dst.spec_contains(t) ==> #[trigger] src.spec_contains(t),
                decreases src.entries@.len() - e,
            {
                let t = src.entries[e].0;
                let st = src.entries[e].1.clone();
                proof {
                    assert(src.entries@[e as int].0 == t);
                    assert(src.spec_contains(t as int));
                    assert(src.entries@[e as int].1.wf()
                        && src.entries@[e as int].1.reference_counter >= 1);
                }
                dst.set(t, st);
                e = e + 1;
            }
            proof {
                assert forall|t: int| dst.spec_contains(t) implies MIN_TICK <= t <= MAX_TICK by {
                    assert(self.tick_states@[l as int].spec_contains(t));
                }
            }
            tick_states.push(dst);
            l = l + 1;
        }
        let mut position_reserves: Vec<(U256X256, U256X256)> = Vec::new();
        let mut acc_fees: Vec<(I128X128, I128X128)> = Vec::new();
        let mut prices: Vec<EffectiveSqrtPrice> = Vec::new();
        let mut nal: Vec<Option<Tick>> = Vec::new();
        let mut nar: Vec<Option<Tick>> = Vec::new();
        let mut liqs: Vec<U192X64> = Vec::new();
        let mut k: usize = 0;
        while k < 8
            invariant
                k <= 8,
                position_reserves@.len() == k,
                forall|j: int|
                    0 <= j < k ==> (#[trigger] position_reserves@[j]).0.wf()
                        && position_reserves@[j].1.wf() && position_reserves@[j].0.as_nat()
                        == self.position_reserves@[j].0.as_nat()
                        && position_reserves@[j].1.as_nat()
                        == self.position_reserves@[j].1.as_nat(),
                acc_fees@.len() == k,
                forall|j: int|
                    0 <= j < k ==> (#[trigger] acc_fees@[j]).0.valid() && acc_fees@[j].1.valid(),
                prices@.len() == k,
                forall|j: int|
                    0 <= j < k ==> (#[trigger] prices@[j]).wf() && prices@[j].left.as_nat()
                        == self.eff_sqrtprices@[j].left.as_nat() && prices@[j].right.as_nat()
                        == self.eff_sqrtprices@[j].right.as_nat(),
                nal@.len() == k,
                forall|j: int| 0 <= j < k ==> (#[trigger] nal@[j]) == self.next_active_ticks_left@[j],
                nar@.len() == k,
                forall|j: int|
                    0 <= j < k ==> (#[trigger] nar@[j]) == self.next_active_ticks_right@[j],
                liqs@.len() == k,
                forall|j: int| 0 <= j < k ==> (#[trigger] liqs@[j]).wf(),
            decreases 8 - k,
        {
            position_reserves.push(
                (self.position_reserves[k].0.clone(), self.position_reserves[k].1.clone()),
            );
            acc_fees.push(
                (
                    self.acc_lp_fees_per_fee_liquidity[k].0.clone(),
                    self.acc_lp_fees_per_fee_liquidity[k].1.clone(),
                ),
            );
            prices.push(self.eff_sqrtprices[k].clone());
            nal.push(self.next_active_ticks_left[k]);
            nar.push(self.next_active_ticks_right[k]);
            liqs.push(self.net_liquidities[k].clone());
            k = k + 1;
        }
        let r = PoolV0 {
            positions,
            tick_states,
            total_reserves: self.total_reserves,
            position_reserves,
            acc_lp_fee: (self.acc_lp_fee.0.clone(), self.acc_lp_fee.1.clone()),
            acc_lp_fees_per_fee_liquidity: acc_fees,
            eff_sqrtprices: prices,
            next_active_ticks_left: nal,
            next_active_ticks_right: nar,
            net_liquidities: liqs,
            top_active_level: self.top_active_level,
            active_side: self.active_side,
            pivot: self.pivot,
        };
        proof {
            lemma_sum_pointwise_equal(r.position_reserves@, self.position_reserves@, 8);
        }
        r
    }
}

/// Sums agree when the entries agree value-wise.
pub proof fn lemma_sum_pointwise_equal(
    s: Seq<(U256X256, U256X256)>,
    s2: Seq<(U256X256, U256X256)>,
    n: int,
)
    requires
        n <= s.len(),
        n <= s2.len(),
        forall|j: int|
            0 <= j < n ==> (#[trigger] s[j]).0.as_nat() == s2[j].0.as_nat() && s[j].1.as_nat()
                == s2[j].1.as_nat(),
    ensures
        spec_sum_left(s, n) == spec_sum_left(s2, n),
        spec_sum_right(s, n) == spec_sum_right(s2, n),
    decreases n,
{
    if n > 0 {
        lemma_sum_pointwise_equal(s, s2, n - 1);
    }
}

} // verus!
