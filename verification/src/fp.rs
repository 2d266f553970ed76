//! Wide unsigned fixed-point types.
//!
//! A value of a type with `N` total limbs and `F` fractional limbs is a
//! natural number `raw` interpreted as `raw / 2^(64F)`.  All contracts are
//! stated over the raw value, so every operation is specified exactly:
//! multiplication returns `floor(a*b / 2^(64F))`, division returns
//! `floor(a * 2^(64F) / b)`, and so on.

use vstd::prelude::*;
use vstd::arithmetic::power2::*;

use crate::limbs::{limb_val, limbs_mul, limbs_skip, limbs_fits, limbs_truncate,
    limbs_shift_up, limbs_pad, limbs_div_rem, limbs_pow2, lemma_limb_val_bound,
    lemma_limb_val_push};
use vstd::arithmetic::power2::lemma_pow2_strictly_increases;

pub mod u128x128;
pub mod u192x64;
pub mod u192x192;
pub mod u256x128;
pub mod u256x256;
pub mod u256x320;
pub mod u320x64;
pub mod u320x128;
pub mod signed;

verus! {

/// Numeric conversion and arithmetic failure reasons.
#[derive(Clone, Copy, PartialEq, Eq, Debug)]
pub enum Error {
    NaN,
    NegativeToUnsigned,
    Overflow,
    PrecisionLoss,
}

/// `floor(a * b / 2^(64f))` in `n` limbs, or `None` when it does not fit.
pub fn fp_mul_limbs(a: &Vec<u64>, b: &Vec<u64>, f: usize, n: usize) -> (r: Option<Vec<u64>>)
    requires
        a@.len() == n,
        b@.len() == n,
        1 <= n,
        f <= n,
        2 * n <= usize::MAX,
    ensures
        match r {
            Some(v) => {
                &&& v@.len() == n
                &&& limb_val(v@) == (limb_val(a@) * limb_val(b@)) / pow2((64 * f) as nat)
                &&& (limb_val(a@) * limb_val(b@)) / pow2((64 * f) as nat) < pow2((64 * n) as nat)
            },
            None => (limb_val(a@) * limb_val(b@)) / pow2((64 * f) as nat) >= pow2((64 * n) as nat),
        },
{
    let prod = limbs_mul(a, b);
    let sh = limbs_skip(&prod, f);
    if limbs_fits(&sh, n) {
        Some(limbs_truncate(&sh, n))
    } else {
        None
    }
}

/// `floor(a * 2^(64f) / b)` in `n` limbs, or `None` when it does not fit.
pub fn fp_div_limbs(a: &Vec<u64>, b: &Vec<u64>, f: usize, n: usize) -> (r: Option<Vec<u64>>)
    requires
        a@.len() == n,
        b@.len() == n,
        1 <= n,
        n + f + 1 <= usize::MAX,
        limb_val(b@) > 0,
    ensures
        match r {
            Some(v) => {
                &&& v@.len() == n
                &&& limb_val(v@) == (limb_val(a@) * pow2((64 * f) as nat)) / limb_val(b@)
                &&& (limb_val(a@) * pow2((64 * f) as nat)) / limb_val(b@) < pow2((64 * n) as nat)
            },
            None => (limb_val(a@) * pow2((64 * f) as nat)) / limb_val(b@) >= pow2(
                (64 * n) as nat,
            ),
        },
{
    let num = limbs_shift_up(a, f);
    let den = limbs_pad(b, n + f);
    let (q, _rem) = limbs_div_rem(&num, &den);
    if limbs_fits(&q, n) {
        Some(limbs_truncate(&q, n))
    } else {
        None
    }
}

/// Widen: append `add_low` low zero limbs, then pad to `new_len` limbs.
pub fn fp_widen_limbs(a: &Vec<u64>, add_low: usize, new_len: usize) -> (r: Vec<u64>)
    requires
        a@.len() + add_low <= new_len,
    ensures
        r@.len() == new_len,
        limb_val(r@) == limb_val(a@) * pow2((64 * add_low) as nat),
{
    let sh = limbs_shift_up(a, add_low);
    let r = limbs_pad(&sh, new_len);
    proof {
        lemma_limb_val_bound(r@);
    }
    r
}

/// Narrow: drop `drop_low` low limbs (losing precision), keep `new_len` limbs.
/// `None` when the integer part does not fit.
pub fn fp_narrow_limbs(a: &Vec<u64>, drop_low: usize, new_len: usize) -> (r: Option<Vec<u64>>)
    requires
        drop_low <= a@.len(),
    ensures
        match r {
            Some(v) => {
                &&& v@.len() == new_len
                &&& limb_val(v@) == limb_val(a@) / pow2((64 * drop_low) as nat)
                &&& limb_val(a@) / pow2((64 * drop_low) as nat) < pow2((64 * new_len) as nat)
            },
            None => limb_val(a@) / pow2((64 * drop_low) as nat) >= pow2((64 * new_len) as nat),
        },
{
    let sh = limbs_skip(a, drop_low);
    if sh.len() <= new_len {
        let r = limbs_pad(&sh, new_len);
        proof {
            lemma_limb_val_bound(r@);
        }
        Some(r)
    } else {
        if limbs_fits(&sh, new_len) {
            Some(limbs_truncate(&sh, new_len))
        } else {
            None
        }
    }
}

/// The least multiple of `p` that is not below `a`.
pub open spec fn fp_ceil_val(a: nat, p: nat) -> nat {
    if a % p == 0 {
        a
    } else {
        (a / p) * p + p
    }
}

/// Exact multiplication by `2^e`, kept in `n` limbs.
pub fn fp_mul_pow2(a: &Vec<u64>, e: usize, n: usize) -> (r: Vec<u64>)
    requires
        a@.len() == n,
        1 <= n,
        e <= 64 * n,
        64 * n + 65 <= usize::MAX,
        limb_val(a@) * pow2(e as nat) < pow2((64 * n) as nat),
    ensures
        r@.len() == n,
        limb_val(r@) == limb_val(a@) * pow2(e as nat),
{
    let w: usize = e / 64;
    let t: usize = e % 64;
    proof {
        assert(w <= n) by (nonlinear_arith)
            requires
                e <= 64 * n,
                w == e / 64,
        ;
        assert(t < 64) by (nonlinear_arith)
            requires
                t == e % 64,
        ;
    }
    let p1 = limbs_pow2(1, t);
    let m = limbs_mul(a, &p1);
    let sh = limbs_shift_up(&m, w);
    proof {
        vstd::arithmetic::div_mod::lemma_fundamental_div_mod(e as int, 64);
        lemma_pow2_adds(t as nat, (64 * w) as nat);
        assert((e as nat) == (t as nat) + (64 * w) as nat);
        assert((limb_val(a@) * pow2(t as nat)) * pow2((64 * w) as nat) == limb_val(a@) * (pow2(
            t as nat,
        ) * pow2((64 * w) as nat))) by (nonlinear_arith);
    }
    limbs_truncate(&sh, n)
}

/// A limb vector of length `n >= 2` holding the value `v * 2^(64f)`.
pub fn fp_from_u128_limbs(v: u128, f: usize, n: usize) -> (r: Vec<u64>)
    requires
        f + 2 <= n,
    ensures
        r@.len() == n,
        limb_val(r@) == (v as nat) * pow2((64 * f) as nat),
{
    let low: u64 = (v % 0x10000000000000000) as u64;
    let high: u64 = (v / 0x10000000000000000) as u64;
    proof {
        assert((v as nat) % 0x10000000000000000 < 0x10000000000000000);
        assert((v as nat) / 0x10000000000000000 < 0x10000000000000000) by (nonlinear_arith)
            requires
                (v as nat) < 0x100000000000000000000000000000000,
        ;
        assert((low as nat) == (v as nat) % 0x10000000000000000);
        assert((high as nat) == (v as nat) / 0x10000000000000000);
    }
    let mut base: Vec<u64> = Vec::new();
    base.push(low);
    base.push(high);
    proof {
        assert(base@ =~= seq![low].push(high));
        assert(seq![low].skip(1) =~= Seq::<u64>::empty());
        lemma_limb_val_push(seq![low], high);
        assert(limb_val(Seq::<u64>::empty()) == 0);
        assert(limb_val(seq![low]) == (low as nat) + 0x10000000000000000 * 0);
        lemma2_to64();
        assert(pow2(64) == 0x10000000000000000);
        vstd::arithmetic::div_mod::lemma_fundamental_div_mod(v as int, 0x10000000000000000);
        assert(limb_val(base@) == (low as nat) + (high as nat) * pow2(64));
        assert((low as nat) + (high as nat) * 0x10000000000000000 == v as nat);
        assert(limb_val(base@) == v as nat);
    }
    fp_widen_limbs(&base, f, n)
}

/// The value `floor(raw / 2^(64f))` as a `u128`, or `None` when it does not fit.
pub fn fp_to_u128_floor(a: &Vec<u64>, f: usize) -> (r: Option<u128>)
    requires
        f <= a@.len(),
    ensures
        match r {
            Some(v) => {
                &&& (v as nat) == limb_val(a@) / pow2((64 * f) as nat)
                &&& limb_val(a@) / pow2((64 * f) as nat) < pow2(128)
            },
            None => limb_val(a@) / pow2((64 * f) as nat) >= pow2(128),
        },
{
    let sh = limbs_skip(a, f);
    let padded = limbs_pad(&sh, if sh.len() < 2 {
        2
    } else {
        sh.len()
    });
    if limbs_fits(&padded, 2) {
        let two = limbs_truncate(&padded, 2);
        let v: u128 = (two[0] as u128) + (two[1] as u128) * 0x10000000000000000;
        proof {
            assert(two@ =~= seq![two@[0]].push(two@[1]));
            assert(seq![two@[0]].skip(1) =~= Seq::<u64>::empty());
            lemma_limb_val_push(seq![two@[0]], two@[1]);
            assert(limb_val(Seq::<u64>::empty()) == 0);
            assert(limb_val(seq![two@[0]]) == (two@[0] as nat) + 0x10000000000000000 * 0);
            lemma2_to64();
            assert(pow2(64) == 0x10000000000000000);
            lemma_pow2_adds(64, 64);
            assert(pow2(128) == 0x100000000000000000000000000000000);
        }
        Some(v)
    } else {
        proof {
            lemma2_to64();
            lemma_pow2_adds(64, 64);
            assert(pow2(128) == 0x100000000000000000000000000000000);
        }
        None
    }
}

/// Raw value of `mantissa * 2^exponent` scaled by `2^(64f)`, in `n` limbs.
///
/// Mirrors the decomposition of a binary floating-point number: the
/// mantissa is placed at the bit offset implied by the exponent.  Bits
/// that would fall below the representable range are an error
/// ([`Error::PrecisionLoss`]), not silent rounding; an overflowing
/// placement is [`Error::Overflow`].
pub fn fp_from_mantissa_exponent(mantissa: u64, exponent: i32, f: usize, n: usize) -> (r: Result<
    Vec<u64>,
    Error,
>)
    requires
        f <= n,
        n >= 1,
        64 * n < 0x10000,
        -0x10000 < exponent < 0x10000,
    ensures
        match r {
            Ok(v) => {
                &&& v@.len() == n
                &&& {
                    let e = exponent + 64 * (f as int);
                    if e >= 0 {
                        limb_val(v@) == (mantissa as nat) * pow2(e as nat) && (mantissa as nat)
                            * pow2(e as nat) < pow2((64 * n) as nat)
                    } else {
                        limb_val(v@) * pow2((-e) as nat) == (mantissa as nat)
                    }
                }
            },
            Err(Error::Overflow) => {
                let e = exponent + 64 * (f as int);
                e >= 0 && (mantissa as nat) * pow2(e as nat) >= pow2((64 * n) as nat)
            },
            Err(Error::PrecisionLoss) => {
                let e = exponent + 64 * (f as int);
                e < 0 && (mantissa as nat) % pow2((-e) as nat) != 0
            },
            Err(_) => false,
        },
{
    let e: i32 = exponent + 64 * (f as i32);
    let mut m: Vec<u64> = Vec::new();
    m.push(mantissa);
    proof {
        assert(m@ =~= seq![mantissa]);
        assert(seq![mantissa].skip(1) =~= Seq::<u64>::empty());
        assert(limb_val(Seq::<u64>::empty()) == 0);
        assert(limb_val(m@) == (mantissa as nat) + 0x10000000000000000 * 0);
    }
    if e >= 0 {
        let padded = limbs_pad(&m, n + 1 + (e as usize) / 64);
        proof {
            let eu = e as nat;
            let w = eu / 64;
            vstd::arithmetic::div_mod::lemma_fundamental_div_mod(eu as int, 64);
            assert(eu < 64 * (w + 1));
            lemma2_to64();
            assert(pow2(64) == 0x10000000000000000);
            assert(limb_val(padded@) < pow2(64));
            lemma_pow2_pos(eu);
            if eu < (64 * (w + 1)) as nat {
                lemma_pow2_strictly_increases(eu, (64 * (w + 1)) as nat);
            }
            lemma_pow2_adds(64, (64 * (w + 1)) as nat);
            assert(limb_val(padded@) * pow2(eu) < pow2(64) * pow2((64 * (w + 1)) as nat))
                by (nonlinear_arith)
                requires
                    limb_val(padded@) < pow2(64),
                    pow2(eu) <= pow2((64 * (w + 1)) as nat),
                    pow2(64) > 0,
                    pow2((64 * (w + 1)) as nat) > 0,
            ;
            let total = (64 * (padded@.len() + w + 1)) as nat;
            assert((64 + 64 * (w + 1)) as nat <= total);
            if ((64 + 64 * (w + 1)) as nat) < total {
                lemma_pow2_strictly_increases((64 + 64 * (w + 1)) as nat, total);
            }
        }
        let shifted = fp_mul_pow2_wide(&padded, e as usize);
        if limbs_fits(&shifted, n) {
            Ok(limbs_truncate(&shifted, n))
        } else {
            Err(Error::Overflow)
        }
    } else {
        let down: usize = (-e) as usize;
        if down >= 64 {
            if mantissa == 0 {
                proof {
                    lemma_pow2_pos(down as nat);
                }
                let z = crate::limbs::limbs_zero(n);
                proof {
                    assert(limb_val(z@) * pow2(down as nat) == 0) by (nonlinear_arith)
                        requires
                            limb_val(z@) == 0,
                    ;
                }
                return Ok(z);
            }
            proof {
                lemma_limb_val_bound(m@);
                lemma_pow2_pos(down as nat);
                if (mantissa as nat) % pow2(down as nat) == 0 {
                    vstd::arithmetic::div_mod::lemma_fundamental_div_mod(
                        mantissa as int,
                        pow2(down as nat) as int,
                    );
                    if down > 64 {
                        lemma_pow2_strictly_increases(64, down as nat);
                    }
                    lemma2_to64();
                    assert(pow2(64) <= pow2(down as nat));
                    assert((mantissa as nat) == pow2(down as nat) * ((mantissa as nat) / pow2(
                        down as nat,
                    )));
                    assert((mantissa as nat) / pow2(down as nat) >= 1) by (nonlinear_arith)
                        requires
                            (mantissa as nat) == pow2(down as nat) * ((mantissa as nat) / pow2(
                                down as nat,
                            )),
                            mantissa > 0,
                    ;
                    assert((mantissa as nat) >= pow2(down as nat)) by (nonlinear_arith)
                        requires
                            (mantissa as nat) == pow2(down as nat) * ((mantissa as nat) / pow2(
                                down as nat,
                            )),
                            (mantissa as nat) / pow2(down as nat) >= 1,
                    ;
                    lemma2_to64();
                    assert(false);
                }
            }
            return Err(Error::PrecisionLoss);
        }
        // split the mantissa at the dropped bits
        let p = crate::limbs::limbs_pow2(1, down);
        let pd = p[0];
        proof {
            assert(p@ =~= seq![pd]);
            assert(seq![pd].skip(1) =~= Seq::<u64>::empty());
            assert(limb_val(Seq::<u64>::empty()) == 0);
            assert(limb_val(p@) == (pd as nat) + 0x10000000000000000 * 0);
            lemma_pow2_pos(down as nat);
        }
        if mantissa % pd != 0 {
            return Err(Error::PrecisionLoss);
        }
        let q = mantissa / pd;
        let mut v: Vec<u64> = Vec::new();
        v.push(q);
        proof {
            assert(v@ =~= seq![q]);
            assert(seq![q].skip(1) =~= Seq::<u64>::empty());
            assert(limb_val(Seq::<u64>::empty()) == 0);
            assert(limb_val(v@) == (q as nat) + 0x10000000000000000 * 0);
            vstd::arithmetic::div_mod::lemma_fundamental_div_mod(
                mantissa as int,
                pd as int,
            );
            assert((q as nat) * pow2(down as nat) == (mantissa as nat)) by (nonlinear_arith)
                requires
                    (mantissa as int) == (pd as int) * ((mantissa as int) / (pd as int)),
                    (q as int) == (mantissa as int) / (pd as int),
                    (pd as nat) == pow2(down as nat),
            ;
        }
        let out = limbs_pad(&v, n);
        Ok(out)
    }
}

/// Exact multiplication by `2^e` with widening: the result keeps every bit.
fn fp_mul_pow2_wide(a: &Vec<u64>, e: usize) -> (r: Vec<u64>)
    requires
        a@.len() >= 1,
        a@.len() + e / 64 + 1 <= usize::MAX,
        limb_val(a@) * pow2(e as nat) < pow2((64 * (a@.len() + e / 64 + 1)) as nat),
        e < 0x20000,
    ensures
        r@.len() == a@.len() + e / 64 + 1,
        limb_val(r@) == limb_val(a@) * pow2(e as nat),
{
    let w: usize = e / 64;
    let t: usize = e % 64;
    let p1 = limbs_pow2(1, t);
    let m = limbs_mul(a, &p1);
    let sh = limbs_shift_up(&m, w);
    proof {
        vstd::arithmetic::div_mod::lemma_fundamental_div_mod(e as int, 64);
        lemma_pow2_adds(t as nat, (64 * w) as nat);
        assert((e as nat) == (t as nat) + (64 * w) as nat);
        assert((limb_val(a@) * pow2(t as nat)) * pow2((64 * w) as nat) == limb_val(a@) * (pow2(
            t as nat,
        ) * pow2((64 * w) as nat))) by (nonlinear_arith);
    }
    sh
}

} // verus!
