//! General laws of the numeric types and the pool state, stated over the
//! same spec values that the executable functions' contracts use.

use vstd::prelude::*;
use vstd::arithmetic::power2::*;
use vstd::arithmetic::div_mod::{lemma_fundamental_div_mod, lemma_div_is_ordered,
    lemma_div_by_multiple};

use crate::fp::u128x128::U128X128;
use crate::pool::{PoolV0, spec_sum_left, spec_sum_right};

verus! {

/// Adding and then subtracting the same value is exact: if `sum` is the
/// result of `a.add(&b)` and `back` the result of `sum.sub(&b)`, then
/// `back` carries exactly the value of `a`.
pub proof fn lemma_fp_add_sub_exact(a: U128X128, b: U128X128, sum: U128X128, back: U128X128)
    requires
        a.wf(),
        b.wf(),
        sum.as_nat() == a.as_nat() + b.as_nat(),
        back.as_nat() == sum.as_nat() - b.as_nat(),
    ensures
        back.as_nat() == a.as_nat(),
{
}

/// Multiplying and then dividing by the same value never overshoots, and
/// undershoots by at most one grid unit per unit of the divisor: if
/// `prod` is the result of `a.mul(&b)` and `quot` of `prod.div(&b)`, then
/// `quot <= a` and `a - quot <= scale/b + 1`.
pub proof fn lemma_fp_mul_div_tolerance(a: nat, b: nat, p: nat, prod: nat, quot: nat)
    requires
        b > 0,
        p > 0,
        prod == (a * b) / p,
        quot == (prod * p) / b,
    ensures
        quot <= a,
        a - quot <= p / b + 1,
{
    let ab = a * b;
    lemma_fundamental_div_mod(ab as int, p as int);
    // prod * p <= ab
    assert(prod * p <= ab) by (nonlinear_arith)
        requires
            (ab as int) == (p as int) * ((ab as int) / (p as int)) + (ab as int) % (p as int),
            (prod as int) == (ab as int) / (p as int),
            (ab as int) % (p as int) >= 0,
    ;
    lemma_div_is_ordered((prod * p) as int, ab as int, b as int);
    lemma_div_by_multiple(a as int, b as int);
    assert((a * b) as int == (a as int) * (b as int)) by (nonlinear_arith);
    assert(quot <= a);
    // prod * p >= ab - (p - 1)
    assert(prod * p + p > ab) by (nonlinear_arith)
        requires
            (ab as int) == (p as int) * ((ab as int) / (p as int)) + (ab as int) % (p as int),
            (prod as int) == (ab as int) / (p as int),
            (ab as int) % (p as int) < (p as int),
    ;
    // quot >= (ab - p + 1 - (b - 1)) / b >= a - p/b - 1
    lemma_fundamental_div_mod((prod * p) as int, b as int);
    lemma_fundamental_div_mod(p as int, b as int);
    assert(quot * b + b > prod * p) by (nonlinear_arith)
        requires
            ((prod * p) as int) == (b as int) * (((prod * p) as int) / (b as int)) + ((prod
                * p) as int) % (b as int),
            (quot as int) == ((prod * p) as int) / (b as int),
            ((prod * p) as int) % (b as int) < (b as int),
    ;
    // combine: quot*b + b > ab - p + 1 - 1, so quot*b > a*b - p - 2b ... bound via division
    let d = p / b;
    assert(p < d * b + b) by (nonlinear_arith)
        requires
            (p as int) == (b as int) * ((p as int) / (b as int)) + (p as int) % (b as int),
            (d as int) == (p as int) / (b as int),
            (p as int) % (b as int) < (b as int),
    ;
    assert(quot * b + b + p > a * b) by (nonlinear_arith)
        requires
            quot * b + b > prod * p,
            prod * p + p > a * b,
    ;
    // a - quot <= d + 1: otherwise a*b >= quot*b + (d+2)*b > quot*b + p + b
    assert(a - quot <= d + 1) by (nonlinear_arith)
        requires
            quot * b + b + p > a * b,
            p < d * b + b,
            b > 0,
            quot <= a,
    ;
}

/// The protocol fee of a pool is never negative: the total reserves cover
/// the position reserves plus the accrued LP fees on both sides.
pub proof fn lemma_protocol_fee_nonnegative(p: &PoolV0)
    requires
        p.wf(),
        p.reserve_invariant(),
    ensures
        (p.total_reserves.0 as nat) * pow2(256) - spec_sum_left(p.position_reserves@, 8)
            - p.acc_lp_fee.0.as_nat() >= 0,
        (p.total_reserves.1 as nat) * pow2(256) - spec_sum_right(p.position_reserves@, 8)
            - p.acc_lp_fee.1.as_nat() >= 0,
{
}

} // verus!
