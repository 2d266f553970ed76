//! 256.128 unsigned fixed point: 6 limbs, 2 of them fractional.

use vstd::prelude::*;
use vstd::arithmetic::power2::*;

use crate::limbs::{limb_val, limbs_copy, limbs_zero, limbs_pow2, limbs_add_exact,
    limbs_checked_add, limbs_sub_exact, limbs_lt, limbs_is_zero, limbs_take, limbs_skip,
    limbs_pad, limbs_shift_up, limbs_isqrt, limbs_icbrt, lemma_limb_val_take_mod, lemma_limb_val_bound,
    lemma_limb_val_push, nat_isqrt, lemma_nat_isqrt_is, nat_icbrt, lemma_nat_icbrt_is};
use crate::fp::{fp_mul_limbs, fp_div_limbs, fp_from_u128_limbs, fp_to_u128_floor, fp_mul_pow2, fp_ceil_val};

verus! {

/// Unsigned fixed point with 256 integer and 128 fractional bits.
#[derive(Debug)]
pub struct U256X128 {
    pub limbs: Vec<u64>,
}

impl U256X128 {
    /// Raw value; the represented number is `as_nat() / 2^128`.
    pub open spec fn as_nat(&self) -> nat {
        limb_val(self.limbs@)
    }

    pub open spec fn wf(&self) -> bool {
        self.limbs@.len() == 6
    }

    /// Scale factor between the raw value and the represented number.
    pub open spec fn scale() -> nat {
        pow2(128)
    }

    /// One past the largest raw value.
    pub open spec fn modulus() -> nat {
        pow2(384)
    }

    pub proof fn lemma_as_nat_bound(&self)
        requires
            self.wf(),
        ensures
            self.as_nat() < Self::modulus(),
    {
        lemma_limb_val_bound(self.limbs@);
    }

    pub(crate) fn from_raw(limbs: Vec<u64>) -> (r: Self)
        requires
            limbs@.len() == 6,
        ensures
            r.wf(),
            r.as_nat() == limb_val(limbs@),
    {
        U256X128 { limbs }
    }

    pub(crate) fn raw(&self) -> (r: &Vec<u64>)
        ensures
            r@ == self.limbs@,
            limb_val(r@) == self.as_nat(),
    {
        &self.limbs
    }

    pub fn clone(&self) -> (r: Self)
        requires
            self.wf(),
        ensures
            r.wf(),
            r.as_nat() == self.as_nat(),
    {
        U256X128 { limbs: limbs_copy(&self.limbs) }
    }

    pub fn zero() -> (r: Self)
        ensures
            r.wf(),
            r.as_nat() == 0,
    {
        U256X128 { limbs: limbs_zero(6) }
    }

    pub fn one() -> (r: Self)
        ensures
            r.wf(),
            r.as_nat() == Self::scale(),
    {
        U256X128 { limbs: limbs_pow2(6, 128) }
    }

    pub fn from_u128(v: u128) -> (r: Self)
        ensures
            r.wf(),
            r.as_nat() == (v as nat) * Self::scale(),
    {
        U256X128 { limbs: fp_from_u128_limbs(v, 2, 6) }
    }

    /// Integer part of the value, when it fits in a `u128`.
    pub fn try_to_u128_floor(&self) -> (r: Option<u128>)
        requires
            self.wf(),
        ensures
            match r {
                Some(v) => (v as nat) == self.as_nat() / Self::scale() && self.as_nat()
                    / Self::scale() < pow2(128),
                None => self.as_nat() / Self::scale() >= pow2(128),
            },
    {
        fp_to_u128_floor(&self.limbs, 2)
    }

    pub fn is_zero(&self) -> (r: bool)
        requires
            self.wf(),
        ensures
            r <==> self.as_nat() == 0,
    {
        limbs_is_zero(&self.limbs)
    }

    pub fn lt(&self, other: &Self) -> (r: bool)
        requires
            self.wf(),
            other.wf(),
        ensures
            r <==> self.as_nat() < other.as_nat(),
    {
        limbs_lt(&self.limbs, &other.limbs)
    }

    pub fn le(&self, other: &Self) -> (r: bool)
        requires
            self.wf(),
            other.wf(),
        ensures
            r <==> self.as_nat() <= other.as_nat(),
    {
        !limbs_lt(&other.limbs, &self.limbs)
    }

    pub fn eq_val(&self, other: &Self) -> (r: bool)
        requires
            self.wf(),
            other.wf(),
        ensures
            r <==> self.as_nat() == other.as_nat(),
    {
        !limbs_lt(&self.limbs, &other.limbs) && !limbs_lt(&other.limbs, &self.limbs)
    }

    pub fn min(self, other: Self) -> (r: Self)
        requires
            self.wf(),
            other.wf(),
        ensures
            r.wf(),
            r.as_nat() == if self.as_nat() <= other.as_nat() {
                self.as_nat()
            } else {
                other.as_nat()
            },
    {
        if limbs_lt(&other.limbs, &self.limbs) {
            other
        } else {
            self
        }
    }

    pub fn max(self, other: Self) -> (r: Self)
        requires
            self.wf(),
            other.wf(),
        ensures
            r.wf(),
            r.as_nat() == if self.as_nat() >= other.as_nat() {
                self.as_nat()
            } else {
                other.as_nat()
            },
    {
        if limbs_lt(&self.limbs, &other.limbs) {
            other
        } else {
            self
        }
    }

    /// Exact sum; the caller must know it fits.
    pub fn add(&self, rhs: &Self) -> (r: Self)
        requires
            self.wf(),
            rhs.wf(),
            self.as_nat() + rhs.as_nat() < Self::modulus(),
        ensures
            r.wf(),
            r.as_nat() == self.as_nat() + rhs.as_nat(),
    {
        U256X128 { limbs: limbs_add_exact(&self.limbs, &rhs.limbs) }
    }

    pub fn checked_add(&self, rhs: &Self) -> (r: Option<Self>)
        requires
            self.wf(),
            rhs.wf(),
        ensures
            match r {
                Some(v) => v.wf() && v.as_nat() == self.as_nat() + rhs.as_nat() && self.as_nat()
                    + rhs.as_nat() < Self::modulus(),
                None => self.as_nat() + rhs.as_nat() >= Self::modulus(),
            },
    {
        match limbs_checked_add(&self.limbs, &rhs.limbs) {
            Some(limbs) => Some(U256X128 { limbs }),
            None => None,
        }
    }

    /// Exact difference; the caller must know it is non-negative.
    pub fn sub(&self, rhs: &Self) -> (r: Self)
        requires
            self.wf(),
            rhs.wf(),
            rhs.as_nat() <= self.as_nat(),
        ensures
            r.wf(),
            r.as_nat() == self.as_nat() - rhs.as_nat(),
    {
        U256X128 { limbs: limbs_sub_exact(&self.limbs, &rhs.limbs) }
    }

    pub fn checked_sub(&self, rhs: &Self) -> (r: Option<Self>)
        requires
            self.wf(),
            rhs.wf(),
        ensures
            match r {
                Some(v) => v.wf() && rhs.as_nat() <= self.as_nat() && v.as_nat() == self.as_nat()
                    - rhs.as_nat(),
                None => self.as_nat() < rhs.as_nat(),
            },
    {
        if limbs_lt(&self.limbs, &rhs.limbs) {
            None
        } else {
            Some(U256X128 { limbs: limbs_sub_exact(&self.limbs, &rhs.limbs) })
        }
    }

    /// Product rounded down to the grid, `floor(a*b / 2^128)`;
    /// the caller must know it fits.
    pub fn mul(&self, rhs: &Self) -> (r: Self)
        requires
            self.wf(),
            rhs.wf(),
            (self.as_nat() * rhs.as_nat()) / Self::scale() < Self::modulus(),
        ensures
            r.wf(),
            r.as_nat() == (self.as_nat() * rhs.as_nat()) / Self::scale(),
    {
        let r = fp_mul_limbs(&self.limbs, &rhs.limbs, 2, 6);
        match r {
            Some(limbs) => U256X128 { limbs },
            None => {
                proof {
                    assert(false);
                }
                U256X128 { limbs: limbs_zero(6) }
            },
        }
    }

    pub fn checked_mul(&self, rhs: &Self) -> (r: Option<Self>)
        requires
            self.wf(),
            rhs.wf(),
        ensures
            match r {
                Some(v) => v.wf() && v.as_nat() == (self.as_nat() * rhs.as_nat()) / Self::scale()
                    && (self.as_nat() * rhs.as_nat()) / Self::scale() < Self::modulus(),
                None => (self.as_nat() * rhs.as_nat()) / Self::scale() >= Self::modulus(),
            },
    {
        match fp_mul_limbs(&self.limbs, &rhs.limbs, 2, 6) {
            Some(limbs) => Some(U256X128 { limbs }),
            None => None,
        }
    }

    /// Quotient rounded down to the grid, `floor(a * 2^128 / b)`;
    /// the caller must know the divisor is nonzero and the result fits.
    pub fn div(&self, rhs: &Self) -> (r: Self)
        requires
            self.wf(),
            rhs.wf(),
            rhs.as_nat() > 0,
            (self.as_nat() * Self::scale()) / rhs.as_nat() < Self::modulus(),
        ensures
            r.wf(),
            r.as_nat() == (self.as_nat() * Self::scale()) / rhs.as_nat(),
    {
        let r = fp_div_limbs(&self.limbs, &rhs.limbs, 2, 6);
        match r {
            Some(limbs) => U256X128 { limbs },
            None => {
                proof {
                    assert(false);
                }
                U256X128 { limbs: limbs_zero(6) }
            },
        }
    }

    pub fn checked_div(&self, rhs: &Self) -> (r: Option<Self>)
        requires
            self.wf(),
            rhs.wf(),
            rhs.as_nat() > 0,
        ensures
            match r {
                Some(v) => v.wf() && v.as_nat() == (self.as_nat() * Self::scale()) / rhs.as_nat()
                    && (self.as_nat() * Self::scale()) / rhs.as_nat() < Self::modulus(),
                None => (self.as_nat() * Self::scale()) / rhs.as_nat() >= Self::modulus(),
            },
    {
        match fp_div_limbs(&self.limbs, &rhs.limbs, 2, 6) {
            Some(limbs) => Some(U256X128 { limbs }),
            None => None,
        }
    }

    /// Fractional part: `as_nat() mod 2^128`.
    pub fn fract(&self) -> (r: Self)
        requires
            self.wf(),
        ensures
            r.wf(),
            r.as_nat() == self.as_nat() % Self::scale(),
    {
        let t = limbs_take(&self.limbs, 2);
        let limbs = limbs_pad(&t, 6);
        proof {
            lemma_limb_val_take_mod(self.limbs@, 2);
        }
        U256X128 { limbs }
    }

    /// Integer part: the value rounded down to a whole number.
    pub fn floor(&self) -> (r: Self)
        requires
            self.wf(),
        ensures
            r.wf(),
            r.as_nat() == (self.as_nat() / Self::scale()) * Self::scale(),
    {
        let t = limbs_skip(&self.limbs, 2);
        let limbs = limbs_shift_up(&t, 2);
        U256X128 { limbs }
    }

    /// Square root on the represented value: returns
    /// `floor(sqrt(raw)) * 2^64` as the new raw value.
    pub fn integer_sqrt(&self) -> (r: Self)
        requires
            self.wf(),
        ensures
            r.wf(),
            r.as_nat() == nat_isqrt(self.as_nat()) * pow2(64),
    {
        let s = limbs_isqrt(&self.limbs);
        proof {
            lemma_nat_isqrt_is(self.as_nat(), limb_val(s@));
            // the scaled root fits: s < 2^192 so s * 2^64 < 2^384
            lemma_limb_val_bound(self.limbs@);
            lemma_pow2_adds(192, 192);
            assert(limb_val(s@) < pow2(192)) by (nonlinear_arith)
                requires
                    limb_val(s@) * limb_val(s@) <= limb_val(self.limbs@),
                    limb_val(self.limbs@) < pow2(192) * pow2(192),
                    pow2(192) > 0,
            ;
            lemma_pow2_adds(192, 64);
            lemma_pow2_pos(64);
            assert(limb_val(s@) * pow2(64) < pow2(192) * pow2(64))
                by (nonlinear_arith)
                requires
                    limb_val(s@) < pow2(192),
                    pow2(64) > 0,
            ;
            lemma_pow2_strictly_increases(192 + 64, 384);
        }
        let limbs = fp_mul_pow2(&s, 64, 6);
        U256X128 { limbs }
    }
}

} // verus!
