//! Fee-level price computations: fee factors, price inversion via a pivot
//! tick, and conservative one-ulp rounding steps.

use vstd::prelude::*;
use vstd::arithmetic::power2::*;

use crate::errors::ErrorKind;
use crate::fp::u128x128::U128X128;
use crate::fp::u192x64::U192X64;
use crate::fp::u192x192::U192X192;
use crate::fp::fp_widen_limbs;
use crate::tick::{EffTick, spec_spot_sqrtprice, spot_sqrtprice_of_index, fee_rate_ticks,
    tick_factor, MIN_EFF_TICK, MAX_EFF_TICK};

verus! {

/// Raw value of the pivot distance window: a pivot is accepted while the
/// ratio `eff_sqrtprice / pivot_price` lies strictly between
/// [`dist_min`] and [`dist_max`] (about five eighths of a tick each way).
pub open spec fn spec_dist_min() -> nat {
    0xfffdf3bf1450e78721ef25a74bfc7fcbnat
}

pub open spec fn spec_dist_max() -> nat {
    0x100020c451d51846d14c81d5d00517240nat
}

fn dist_min() -> (r: U128X128)
    ensures
        r.wf(),
        r.as_nat() == spec_dist_min(),
{
    crate::tick::u128x128_from_limbs(0x21ef25a74bfc7fcb, 0xfffdf3bf1450e787, 0x0, 0x0)
}

fn dist_max() -> (r: U128X128)
    ensures
        r.wf(),
        r.as_nat() == spec_dist_max(),
{
    crate::tick::u128x128_from_limbs(0x14c81d5d00517240, 0x20c451d51846d, 0x1, 0x0)
}

/// `1 / sqrt(1 - fee_rate)` of a fee level: the spot price of the tick at
/// the level's fee offset.
pub fn one_over_sqrt_one_minus_fee_rate(fee_level: u8) -> (r: U128X128)
    requires
        fee_level < 8,
    ensures
        r.wf(),
        r.as_nat() == spec_spot_sqrtprice(pow2(fee_level as nat) as int),
        r.as_nat() >= pow2(128),
        r.as_nat() > 0,
{
    let fr = fee_rate_ticks(fee_level) as i32;
    let r = spot_sqrtprice_of_index(fr);
    proof {
        lemma_pow2_pos(128);
    }
    r
}

/// `1 / (1 - fee_rate)` of a fee level: the spot price of twice the
/// level's fee offset.
pub fn one_over_one_minus_fee_rate(fee_level: u8) -> (r: U128X128)
    requires
        fee_level < 8,
    ensures
        r.wf(),
        r.as_nat() == spec_spot_sqrtprice(2 * pow2(fee_level as nat) as int),
        r.as_nat() >= pow2(128),
        r.as_nat() > 0,
{
    let fr = fee_rate_ticks(fee_level) as i32;
    let r = spot_sqrtprice_of_index(2 * fr);
    proof {
        lemma_pow2_pos(128);
    }
    r
}

/// Fee rate of a level: `(c - 1) / c` where `c = 1/(1 - fee_rate)`.
/// The computation never fails: the fee factor is at least one and the
/// quotient is below one.
pub fn fee_rate(fee_level: u8) -> (r: Result<U128X128, ErrorKind>)
    requires
        fee_level < 8,
    ensures
        match r {
            Ok(v) => {
                &&& v.wf()
                &&& {
                    let c = spec_spot_sqrtprice(2 * pow2(fee_level as nat) as int);
                    c >= pow2(128) && v.as_nat() == ((c - pow2(128)) * pow2(128)) as nat / c
                }
            },
            Err(_) => false,
        },
{
    let c = one_over_one_minus_fee_rate(fee_level);
    let one = U128X128::one();
    if c.lt(&one) {
        proof {
            assert(false);
        }
        return Err(ErrorKind::InternalLogicError);
    }
    let num = c.sub(&one);
    proof {
        // num < c, so num * 2^128 / c < 2^128 < 2^256
        lemma_pow2_pos(128);
        lemma_pow2_adds(128, 128);
        assert(((num.as_nat() * pow2(128)) as int) < (c.as_nat() as int) * (pow2(128) as int))
            by (nonlinear_arith)
            requires
                num.as_nat() < c.as_nat(),
                pow2(128) > 0,
        ;
        vstd::arithmetic::mul::lemma_mul_is_commutative(c.as_nat() as int, pow2(128) as int);
        vstd::arithmetic::div_mod::lemma_multiply_divide_lt(
            (num.as_nat() * pow2(128)) as int,
            c.as_nat() as int,
            pow2(128) as int,
        );
        lemma_pow2_strictly_increases(128, 256);
    }
    match num.checked_div(&c) {
        Some(v) => Ok(v),
        None => {
            proof {
                assert(false);
            }
            Err(ErrorKind::InternalLogicError)
        },
    }
}

/// One representation step upward: the least value strictly above `a`.
pub fn next_up(a: &U128X128) -> (r: U128X128)
    requires
        a.wf(),
        a.as_nat() + 1 < U128X128::modulus(),
    ensures
        r.wf(),
        r.as_nat() == a.as_nat() + 1,
{
    let one_ulp = crate::tick::u128x128_from_limbs(1, 0, 0, 0);
    a.add(&one_ulp)
}

/// One representation step downward: the greatest value strictly below `a`.
pub fn next_down(a: &U128X128) -> (r: U128X128)
    requires
        a.wf(),
        a.as_nat() > 0,
    ensures
        r.wf(),
        r.as_nat() == a.as_nat() - 1,
{
    let one_ulp = crate::tick::u128x128_from_limbs(1, 0, 0, 0);
    a.sub(&one_ulp)
}

/// A pivot is acceptable for a price when the ratio price/pivot-price lies
/// strictly inside the distance window.
pub open spec fn spec_pivot_ok(eff_sqrtprice: nat, pivot: int) -> bool {
    let ratio = (eff_sqrtprice * pow2(128)) / spec_spot_sqrtprice(pivot);
    spec_dist_min() < ratio < spec_dist_max()
}

/// Find a pivot tick whose spot price is within the distance window of
/// `eff_sqrtprice`, starting the search from `init_pivot`.
///
/// The search steps by table powers for large distances and by a linearised
/// estimate for small ones; it is defensively bounded, and reports
/// `InternalLogicError` if it fails to make progress.
pub fn find_pivot(init_pivot: EffTick, eff_sqrtprice: &U128X128) -> (r: Result<EffTick, ErrorKind>)
    requires
        init_pivot.spec_valid(),
        eff_sqrtprice.wf(),
        eff_sqrtprice.as_nat() > 0,
    ensures
        match r {
            Ok(p) => p.spec_valid() && spec_pivot_ok(eff_sqrtprice.as_nat(), p.spec_index()),
            Err(e) => e == ErrorKind::InternalLogicError || e == ErrorKind::PriceTickOutOfBounds,
        },
{
    let lo = dist_min();
    let hi = dist_max();
    let mut pivot = init_pivot;
    let mut budget: u32 = 256;
    while budget > 0
        invariant
            pivot.spec_valid(),
            eff_sqrtprice.wf(),
            eff_sqrtprice.as_nat() > 0,
            lo.wf(),
            lo.as_nat() == spec_dist_min(),
            hi.wf(),
            hi.as_nat() == spec_dist_max(),
        decreases budget,
    {
        budget = budget - 1;
        let pivot_price = pivot.eff_sqrtprice();
        let distance = eff_sqrtprice.checked_div(&pivot_price);
        let step_ticks: i32 = match distance {
            Some(d) => {
                if lo.lt(&d) && d.lt(&hi) {
                    proof {
                        lemma_pow2_pos(128);
                    }
                    return Ok(pivot);
                }
                if d.is_zero() {
                    // the price is far below the pivot price
                    -0x100000
                } else {
                    pivot_step(&d)
                }
            },
            None => {
                // ratio overflows the price type: the price is far above
                0x100000
            },
        };
        let clamped: i32 = clamp_step(step_ticks, pivot.index());
        if clamped == 0 {
            return Err(ErrorKind::InternalLogicError);
        }
        pivot = match pivot.shifted(clamped) {
            Ok(p) => p,
            Err(e) => {
                return Err(e);
            },
        };
    }
    Err(ErrorKind::InternalLogicError)
}

/// Clamp a pivot step so that the pivot stays on the extended grid.
fn clamp_step(step: i32, pivot_index: i32) -> (r: i32)
    requires
        MIN_EFF_TICK <= pivot_index <= MAX_EFF_TICK,
        -0x100000 <= step <= 0x100000,
    ensures
        MIN_EFF_TICK <= pivot_index + r <= MAX_EFF_TICK,
        -0x100000 <= r <= 0x100000,
        (step != 0 && (MIN_EFF_TICK <= pivot_index + step <= MAX_EFF_TICK)) ==> r == step,
{
    let min_step = MIN_EFF_TICK - pivot_index;
    let max_step = MAX_EFF_TICK - pivot_index;
    if step < min_step {
        min_step
    } else if step > max_step {
        max_step
    } else {
        step
    }
}

/// Step estimate for a finite nonzero distance ratio.
fn pivot_step(d: &U128X128) -> (r: i32)
    requires
        d.wf(),
        d.as_nat() > 0,
    ensures
        -0x100000 <= r <= 0x100000,
        r != 0,
{
    // distance thresholds for using the lookup table
    let max_approx = tick_factor(12);
    let min_approx = crate::tick::u128x128_from_limbs(0x845ad8f792aa6459, 0xd097f3bdfd2022b8, 0x0, 0x0);
    if max_approx.lt(d) {
        // far above: largest table factor not exceeding the distance
        let mut k: usize = 20;
        loop
            invariant
                12 <= k <= 20,
                d.wf(),
            decreases k,
        {
            let f = tick_factor(k);
            if !d.lt(&f) {
                proof {
                    lemma_pow2_pos(k as nat);
                    lemma_pow2_strictly_increases(k as nat, 21);
                    assert(pow2(21) == 0x200000) by {
                        lemma2_to64();
                    };
                }
                return pow2_i32(k);
            }
            if k == 12 {
                return pow2_i32(12);
            }
            k = k - 1;
        }
    } else if d.lt(&min_approx) {
        // far below: same search on the reciprocal
        let one = U128X128::one();
        proof {
            lemma_pow2_adds(128, 128);
            lemma_pow2_pos(128);
            vstd::arithmetic::div_mod::lemma_div_is_ordered_by_denominator(
                pow2(256) as int,
                1,
                d.as_nat() as int,
            );
        }
        match one.checked_div(d) {
            Some(inv) => {
                let mut k: usize = 20;
                loop
                    invariant
                        12 <= k <= 20,
                        inv.wf(),
                        d.wf(),
                    decreases k,
                {
                    let f = tick_factor(k);
                    if !inv.lt(&f) {
                        proof {
                            lemma_pow2_pos(k as nat);
                        }
                        return neg_pow2_i32(k);
                    }
                    if k == 12 {
                        return neg_pow2_i32(12);
                    }
                    k = k - 1;
                }
            },
            None => {
                return neg_pow2_i32(20);
            },
        }
    } else {
        // near: linearised estimate (1+x)^n ~ 1+n*x
        let one = U128X128::one();
        let base_minus_one = crate::tick::u128x128_from_limbs(
            0xe55ad00f5c38565c,
            0x346d6ff11672a,
            0,
            0,
        );
        let diff = if one.lt(d) {
            d.sub(&one)
        } else {
            one.sub(d)
        };
        let steps = match diff.checked_div(&base_minus_one) {
            Some(s) => s,
            None => {
                return 1;
            },
        };
        let n = match steps.try_to_u128_floor() {
            Some(v) => v,
            None => {
                return 1;
            },
        };
        let n_clamped: i32 = if n > 0x100000 {
            0x100000
        } else {
            n as i32
        };
        let signed: i32 = if one.lt(d) {
            n_clamped
        } else {
            -n_clamped
        };
        if signed == 0 {
            if one.lt(d) {
                1
            } else {
                -1
            }
        } else {
            signed
        }
    }
}

/// `2^k` as an `i32`, for small `k`.
fn pow2_i32(k: usize) -> (r: i32)
    requires
        k <= 20,
    ensures
        (r as int) == pow2(k as nat),
        1 <= r <= 0x100000,
{
    proof {
        lemma2_to64();
    }
    match k {
        0 => 1,
        1 => 2,
        2 => 4,
        3 => 8,
        4 => 16,
        5 => 32,
        6 => 64,
        7 => 128,
        8 => 256,
        9 => 512,
        10 => 1024,
        11 => 2048,
        12 => 4096,
        13 => 8192,
        14 => 16384,
        15 => 32768,
        16 => 65536,
        17 => 131072,
        18 => 262144,
        19 => 524288,
        _ => 1048576,
    }
}

fn neg_pow2_i32(k: usize) -> (r: i32)
    requires
        k <= 20,
    ensures
        (r as int) == -pow2(k as nat),
        -0x100000 <= r <= -1,
{
    -pow2_i32(k)
}

/// Effective price on the opposite swap side, inverted about a pivot tick
/// whose spot price is close to `eff_sqrtprice`.
pub fn eff_sqrtprice_opposite_side(
    eff_sqrtprice: &U128X128,
    fee_level: u8,
    pivot: Option<EffTick>,
) -> (r: Result<U128X128, ErrorKind>)
    requires
        eff_sqrtprice.wf(),
        eff_sqrtprice.as_nat() > 0,
        fee_level < 8,
        match pivot {
            Some(p) => p.spec_valid(),
            None => true,
        },
    ensures
        match r {
            Ok(v) => {
                &&& v.wf()
                &&& exists|pi: int|
                    {
                        &&& #[trigger] spec_pivot_ok(eff_sqrtprice.as_nat(), pi)
                        &&& MIN_EFF_TICK <= pi <= MAX_EFF_TICK
                        &&& MIN_EFF_TICK <= -pi + 2 * pow2(fee_level as nat) <= MAX_EFF_TICK
                        &&& v.as_nat() == ((spec_spot_sqrtprice(pi) * pow2(128))
                            / eff_sqrtprice.as_nat() * spec_spot_sqrtprice(
                            -pi + 2 * pow2(fee_level as nat),
                        )) / pow2(128)
                    }
            },
            Err(_) => true,
        },
{
    let init = match pivot {
        Some(p) => p,
        None => EffTick::origin(),
    };
    let p = match find_pivot(init, eff_sqrtprice) {
        Ok(p) => p,
        Err(e) => {
            return Err(e);
        },
    };
    let p_price = p.eff_sqrtprice();
    let opp = match p.opposite(fee_level) {
        Ok(o) => o,
        Err(e) => {
            return Err(e);
        },
    };
    let opp_price = opp.eff_sqrtprice();
    let t = match p_price.checked_div(eff_sqrtprice) {
        Some(t) => t,
        None => {
            return Err(ErrorKind::InternalLogicError);
        },
    };
    match t.checked_mul(&opp_price) {
        Some(v) => {
            proof {
                assert(spec_pivot_ok(eff_sqrtprice.as_nat(), p.spec_index()));
            }
            Ok(v)
        },
        None => Err(ErrorKind::InternalLogicError),
    }
}

/// Gross liquidity: `net_liquidity / (1 - fee_rate)`, connecting the total
/// amount paid by a trader to the effective price shift.
pub fn gross_liquidity_from_net_liquidity(net_liquidity: &U192X64, fee_level: u8) -> (r: Result<
    U192X192,
    ErrorKind,
>)
    requires
        net_liquidity.wf(),
        fee_level < 8,
    ensures
        match r {
            Ok(v) => {
                &&& v.wf()
                &&& spec_spot_sqrtprice(2 * pow2(fee_level as nat) as int) >= pow2(128)
                &&& v.as_nat() == (net_liquidity.as_nat() * pow2(128) * (spec_spot_sqrtprice(
                    2 * pow2(fee_level as nat) as int,
                ) * pow2(64))) / pow2(192)
                &&& v.as_nat() >= net_liquidity.as_nat() * pow2(128)
            },
            Err(e) => e == ErrorKind::ConvOverflow,
        },
{
    let oo = one_over_one_minus_fee_rate(fee_level);
    let net_wide = U192X192::from_raw(fp_widen_limbs(net_liquidity.raw(), 2, 6));
    let oo_wide = U192X192::from_raw(fp_widen_limbs(oo.raw(), 1, 6));
    match net_wide.checked_mul(&oo_wide) {
        Some(v) => {
            proof {
                lemma_pow2_adds(64, 64);
                lemma_pow2_adds(128, 64);
                lemma_pow2_pos(192);
                // the fee factor is at least one, so gross >= net
                let net = net_wide.as_nat();
                let f = oo_wide.as_nat();
                assert(f >= pow2(192)) by (nonlinear_arith)
                    requires
                        f == oo.as_nat() * pow2(64),
                        oo.as_nat() >= pow2(128),
                        pow2(192) == pow2(128) * pow2(64),
                ;
                vstd::arithmetic::mul::lemma_mul_inequality(
                    pow2(192) as int,
                    f as int,
                    net as int,
                );
                vstd::arithmetic::mul::lemma_mul_is_commutative(net as int, f as int);
                vstd::arithmetic::mul::lemma_mul_is_commutative(net as int, pow2(192) as int);
                vstd::arithmetic::div_mod::lemma_div_is_ordered(
                    (net * pow2(192)) as int,
                    (net * f) as int,
                    pow2(192) as int,
                );
                vstd::arithmetic::div_mod::lemma_div_by_multiple(
                    net as int,
                    pow2(192) as int,
                );
            }
            Ok(v)
        },
        None => Err(ErrorKind::ConvOverflow),
    }
}

/// Fee liquidity: `net_liquidity * (1/(1-fee_rate) - 1)`, connecting the
/// accrued LP fee to the effective price shift.
pub fn fee_liquidity_from_net_liquidity(net_liquidity: &U192X64, fee_level: u8) -> (r: Result<
    U192X192,
    ErrorKind,
>)
    requires
        net_liquidity.wf(),
        fee_level < 8,
    ensures
        match r {
            Ok(v) => {
                &&& v.wf()
                &&& spec_spot_sqrtprice(2 * pow2(fee_level as nat) as int) >= pow2(128)
                &&& v.as_nat() == (net_liquidity.as_nat() * pow2(128) * ((spec_spot_sqrtprice(
                    2 * pow2(fee_level as nat) as int,
                ) - pow2(128)) as nat * pow2(64))) / pow2(192)
            },
            Err(e) => e == ErrorKind::ConvOverflow || e == ErrorKind::InternalLogicError,
        },
{
    let oo = one_over_one_minus_fee_rate(fee_level);
    let one = U128X128::one();
    if oo.lt(&one) {
        return Err(ErrorKind::InternalLogicError);
    }
    let frac = oo.sub(&one);
    let net_wide = U192X192::from_raw(fp_widen_limbs(net_liquidity.raw(), 2, 6));
    let frac_wide = U192X192::from_raw(fp_widen_limbs(frac.raw(), 1, 6));
    match net_wide.checked_mul(&frac_wide) {
        Some(v) => {
            proof {
                lemma_pow2_adds(64, 64);
            }
            Ok(v)
        },
        None => Err(ErrorKind::ConvOverflow),
    }
}

} // verus!
