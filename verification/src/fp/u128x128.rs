//! 128.128 unsigned fixed point: 4 limbs, 2 of them fractional.

use vstd::prelude::*;
use vstd::arithmetic::power2::*;

use crate::limbs::{limb_val, limbs_copy, limbs_zero, limbs_pow2, limbs_add_exact,
    limbs_checked_add, limbs_sub_exact, limbs_lt, limbs_is_zero, limbs_take, limbs_skip,
    limbs_pad, limbs_shift_up, limbs_isqrt, limbs_icbrt, lemma_limb_val_take_mod, lemma_limb_val_bound,
    lemma_limb_val_push, nat_isqrt, lemma_nat_isqrt_is, nat_icbrt, lemma_nat_icbrt_is};
use crate::fp::{fp_mul_limbs, fp_div_limbs, fp_from_u128_limbs, fp_to_u128_floor, fp_mul_pow2, fp_ceil_val};

verus! {

/// Unsigned fixed point with 128 integer and 128 fractional bits.
#[derive(Debug)]
pub struct U128X128 {
    pub limbs: Vec<u64>,
}

impl U128X128 {
    /// Raw value; the represented number is `as_nat() / 2^128`.
    pub open spec fn as_nat(&self) -> nat {
        limb_val(self.limbs@)
    }

    pub open spec fn wf(&self) -> bool {
        self.limbs@.len() == 4
    }

    /// Scale factor between the raw value and the represented number.
    pub open spec fn scale() -> nat {
        pow2(128)
    }

    /// One past the largest raw value.
    pub open spec fn modulus() -> nat {
        pow2(256)
    }

    pub proof fn lemma_as_nat_bound(&self)
        requires
            self.wf(),
        ensures
            self.as_nat() < Self::modulus(),
    {
        lemma_limb_val_bound(self.limbs@);
    }

    pub(crate) fn from_raw(limbs: Vec<u64>) -> (r: Self)
        requires
            limbs@.len() == 4,
        ensures
            r.wf(),
            r.as_nat() == limb_val(limbs@),
    {
        U128X128 { limbs }
    }

    pub(crate) fn raw(&self) -> (r: &Vec<u64>)
        ensures
            r@ == self.limbs@,
            limb_val(r@) == self.as_nat(),
    {
        &self.limbs
    }

    pub fn clone(&self) -> (r: Self)
        requires
            self.wf(),
        ensures
            r.wf(),
            r.as_nat() == self.as_nat(),
    {
        U128X128 { limbs: limbs_copy(&self.limbs) }
    }

    pub fn zero() -> (r: Self)
        ensures
            r.wf(),
            r.as_nat() == 0,
    {
        U128X128 { limbs: limbs_zero(4) }
    }

    pub fn one() -> (r: Self)
        ensures
            r.wf(),
            r.as_nat() == Self::scale(),
    {
        U128X128 { limbs: limbs_pow2(4, 128) }
    }

    pub fn from_u128(v: u128) -> (r: Self)
        ensures
            r.wf(),
            r.as_nat() == (v as nat) * Self::scale(),
    {
        U128X128 { limbs: fp_from_u128_limbs(v, 2, 4) }
    }

    /// Integer part of the value, when it fits in a `u128`.
    pub fn try_to_u128_floor(&self) -> (r: Option<u128>)
        requires
            self.wf(),
        ensures
            match r {
                Some(v) => (v as nat) == self.as_nat() / Self::scale() && self.as_nat()
                    / Self::scale() < pow2(128),
                None => self.as_nat() / Self::scale() >= pow2(128),
            },
    {
        fp_to_u128_floor(&self.limbs, 2)
    }

    pub fn is_zero(&self) -> (r: bool)
        requires
            self.wf(),
        ensures
            r <==> self.as_nat() == 0,
    {
        limbs_is_zero(&self.limbs)
    }

    pub fn lt(&self, other: &Self) -> (r: bool)
        requires
            self.wf(),
            other.wf(),
        ensures
            r <==> self.as_nat() < other.as_nat(),
    {
        limbs_lt(&self.limbs, &other.limbs)
    }

    pub fn le(&self, other: &Self) -> (r: bool)
        requires
            self.wf(),
            other.wf(),
        ensures
            r <==> self.as_nat() <= other.as_nat(),
    {
        !limbs_lt(&other.limbs, &self.limbs)
    }

    pub fn eq_val(&self, other: &Self) -> (r: bool)
        requires
            self.wf(),
            other.wf(),
        ensures
            r <==> self.as_nat() == other.as_nat(),
    {
        !limbs_lt(&self.limbs, &other.limbs) && !limbs_lt(&other.limbs, &self.limbs)
    }

    pub fn min(self, other: Self) -> (r: Self)
        requires
            self.wf(),
            other.wf(),
        ensures
            r.wf(),
            r.as_nat() == if self.as_nat() <= other.as_nat() {
                self.as_nat()
            } else {
                other.as_nat()
            },
    {
        if limbs_lt(&other.limbs, &self.limbs) {
            other
        } else {
            self
        }
    }

    pub fn max(self, other: Self) -> (r: Self)
        requires
            self.wf(),
            other.wf(),
        ensures
            r.wf(),
            r.as_nat() == if self.as_nat() >= other.as_nat() {
                self.as_nat()
            } else {
                other.as_nat()
            },
    {
        if limbs_lt(&self.limbs, &other.limbs) {
            other
        } else {
            self
        }
    }

    /// Exact sum; the caller must know it fits.
    pub fn add(&self, rhs: &Self) -> (r: Self)
        requires
            self.wf(),
            rhs.wf(),
            self.as_nat() + rhs.as_nat() < Self::modulus(),
        ensures
            r.wf(),
            r.as_nat() == self.as_nat() + rhs.as_nat(),
    {
        U128X128 { limbs: limbs_add_exact(&self.limbs, &rhs.limbs) }
    }

    pub fn checked_add(&self, rhs: &Self) -> (r: Option<Self>)
        requires
            self.wf(),
            rhs.wf(),
        ensures
            match r {
                Some(v) => v.wf() && v.as_nat() == self.as_nat() + rhs.as_nat() && self.as_nat()
                    + rhs.as_nat() < Self::modulus(),
                None => self.as_nat() + rhs.as_nat() >= Self::modulus(),
            },
    {
        match limbs_checked_add(&self.limbs, &rhs.limbs) {
            Some(limbs) => Some(U128X128 { limbs }),
            None => None,
        }
    }

    /// Exact difference; the caller must know it is non-negative.
    pub fn sub(&self, rhs: &Self) -> (r: Self)
        requires
            self.wf(),
            rhs.wf(),
            rhs.as_nat() <= self.as_nat(),
        ensures
            r.wf(),
            r.as_nat() == self.as_nat() - rhs.as_nat(),
    {
        U128X128 { limbs: limbs_sub_exact(&self.limbs, &rhs.limbs) }
    }

    pub fn checked_sub(&self, rhs: &Self) -> (r: Option<Self>)
        requires
            self.wf(),
            rhs.wf(),
        ensures
            match r {
                Some(v) => v.wf() && rhs.as_nat() <= self.as_nat() && v.as_nat() == self.as_nat()
                    - rhs.as_nat(),
                None => self.as_nat() < rhs.as_nat(),
            },
    {
        if limbs_lt(&self.limbs, &rhs.limbs) {
            None
        } else {
            Some(U128X128 { limbs: limbs_sub_exact(&self.limbs, &rhs.limbs) })
        }
    }

    /// Product rounded down to the grid, `floor(a*b / 2^128)`;
    /// the caller must know it fits.
    pub fn mul(&self, rhs: &Self) -> (r: Self)
        requires
            self.wf(),
            rhs.wf(),
            (self.as_nat() * rhs.as_nat()) / Self::scale() < Self::modulus(),
        ensures
            r.wf(),
            r.as_nat() == (self.as_nat() * rhs.as_nat()) / Self::scale(),
    {
        let r = fp_mul_limbs(&self.limbs, &rhs.limbs, 2, 4);
        match r {
            Some(limbs) => U128X128 { limbs },
            None => {
                proof {
                    assert(false);
                }
                U128X128 { limbs: limbs_zero(4) }
            },
        }
    }

    pub fn checked_mul(&self, rhs: &Self) -> (r: Option<Self>)
        requires
            self.wf(),
            rhs.wf(),
        ensures
            match r {
                Some(v) => v.wf() && v.as_nat() == (self.as_nat() * rhs.as_nat()) / Self::scale()
                    && (self.as_nat() * rhs.as_nat()) / Self::scale() < Self::modulus(),
                None => (self.as_nat() * rhs.as_nat()) / Self::scale() >= Self::modulus(),
            },
    {
        match fp_mul_limbs(&self.limbs, &rhs.limbs, 2, 4) {
            Some(limbs) => Some(U128X128 { limbs }),
            None => None,
        }
    }

    /// Quotient rounded down to the grid, `floor(a * 2^128 / b)`;
    /// the caller must know the divisor is nonzero and the result fits.
    pub fn div(&self, rhs: &Self) -> (r: Self)
        requires
            self.wf(),
            rhs.wf(),
            rhs.as_nat() > 0,
            (self.as_nat() * Self::scale()) / rhs.as_nat() < Self::modulus(),
        ensures
            r.wf(),
            r.as_nat() == (self.as_nat() * Self::scale()) / rhs.as_nat(),
    {
        let r = fp_div_limbs(&self.limbs, &rhs.limbs, 2, 4);
        match r {
            Some(limbs) => U128X128 { limbs },
            None => {
                proof {
                    assert(false);
                }
                U128X128 { limbs: limbs_zero(4) }
            },
        }
    }

    pub fn checked_div(&self, rhs: &Self) -> (r: Option<Self>)
        requires
            self.wf(),
            rhs.wf(),
            rhs.as_nat() > 0,
        ensures
            match r {
                Some(v) => v.wf() && v.as_nat() == (self.as_nat() * Self::scale()) / rhs.as_nat()
                    && (self.as_nat() * Self::scale()) / rhs.as_nat() < Self::modulus(),
                None => (self.as_nat() * Self::scale()) / rhs.as_nat() >= Self::modulus(),
            },
    {
        match fp_div_limbs(&self.limbs, &rhs.limbs, 2, 4) {
            Some(limbs) => Some(U128X128 { limbs }),
            None => None,
        }
    }

    /// Fractional part: `as_nat() mod 2^128`.
    pub fn fract(&self) -> (r: Self)
        requires
            self.wf(),
        ensures
            r.wf(),
            r.as_nat() == self.as_nat() % Self::scale(),
    {
        let t = limbs_take(&self.limbs, 2);
        let limbs = limbs_pad(&t, 4);
        proof {
            lemma_limb_val_take_mod(self.limbs@, 2);
        }
        U128X128 { limbs }
    }

    /// Integer part: the value rounded down to a whole number.
    pub fn floor(&self) -> (r: Self)
        requires
            self.wf(),
        ensures
            r.wf(),
            r.as_nat() == (self.as_nat() / Self::scale()) * Self::scale(),
    {
        let t = limbs_skip(&self.limbs, 2);
        let limbs = limbs_shift_up(&t, 2);
        U128X128 { limbs }
    }

    /// Square root on the represented value: returns
    /// `floor(sqrt(raw)) * 2^64` as the new raw value.
    pub fn integer_sqrt(&self) -> (r: Self)
        requires
            self.wf(),
        ensures
            r.wf(),
            r.as_nat() == nat_isqrt(self.as_nat()) * pow2(64),
    {
        let s = limbs_isqrt(&self.limbs);
        proof {
            lemma_nat_isqrt_is(self.as_nat(), limb_val(s@));
            // the scaled root fits: s < 2^128 so s * 2^64 < 2^256
            lemma_limb_val_bound(self.limbs@);
            lemma_pow2_adds(128, 128);
            assert(limb_val(s@) < pow2(128)) by (nonlinear_arith)
                requires
                    limb_val(s@) * limb_val(s@) <= limb_val(self.limbs@),
                    limb_val(self.limbs@) < pow2(128) * pow2(128),
                    pow2(128) > 0,
            ;
            lemma_pow2_adds(128, 64);
            lemma_pow2_pos(64);
            assert(limb_val(s@) * pow2(64) < pow2(128) * pow2(64))
                by (nonlinear_arith)
                requires
                    limb_val(s@) < pow2(128),
                    pow2(64) > 0,
            ;
            lemma_pow2_strictly_increases(128 + 64, 256);
        }
        let limbs = fp_mul_pow2(&s, 64, 4);
        U128X128 { limbs }
    }

    /// Fractional part as an integer in `[0, 2^128)`.
    pub fn lower_part(&self) -> (r: u128)
        requires
            self.wf(),
        ensures
            (r as nat) == self.as_nat() % pow2(128),
    {
        let t = limbs_take(&self.limbs, 2);
        proof {
            lemma_limb_val_take_mod(self.limbs@, 2);
            assert(t@ =~= seq![t@[0]].push(t@[1]));
            assert(seq![t@[0]].skip(1) =~= Seq::<u64>::empty());
            lemma_limb_val_push(seq![t@[0]], t@[1]);
            lemma2_to64();
            assert(limb_val(Seq::<u64>::empty()) == 0);
            assert(limb_val(seq![t@[0]]) == (t@[0] as nat) + 0x10000000000000000 * 0);
        }
        let lo: u64 = t[0];
        let hi: u64 = t[1];
        proof {
            assert((hi as u128) * 0x10000000000000000 <= 0xffffffffffffffff0000000000000000u128)
                by (nonlinear_arith)
                requires
                    hi <= 0xffffffffffffffffu64,
            ;
        }
        (lo as u128) + (hi as u128) * 0x10000000000000000
    }

    /// Integer part as an integer in `[0, 2^128)`.
    pub fn upper_part(&self) -> (r: u128)
        requires
            self.wf(),
        ensures
            (r as nat) == self.as_nat() / pow2(128),
    {
        let t = limbs_skip(&self.limbs, 2);
        proof {
            assert(t@ =~= seq![t@[0]].push(t@[1]));
            assert(seq![t@[0]].skip(1) =~= Seq::<u64>::empty());
            lemma_limb_val_push(seq![t@[0]], t@[1]);
            lemma2_to64();
            assert(limb_val(Seq::<u64>::empty()) == 0);
            assert(limb_val(seq![t@[0]]) == (t@[0] as nat) + 0x10000000000000000 * 0);
        }
        let lo: u64 = t[0];
        let hi: u64 = t[1];
        proof {
            assert((hi as u128) * 0x10000000000000000 <= 0xffffffffffffffff0000000000000000u128)
                by (nonlinear_arith)
                requires
                    hi <= 0xffffffffffffffffu64,
            ;
        }
        (lo as u128) + (hi as u128) * 0x10000000000000000
    }

    /// Zero the lowest 64 fractional bits.
    pub fn truncate_fract_to_64bits(&self) -> (r: Self)
        requires
            self.wf(),
        ensures
            r.wf(),
            r.as_nat() == (self.as_nat() / pow2(64)) * pow2(64),
    {
        let t = limbs_skip(&self.limbs, 1);
        let limbs = limbs_shift_up(&t, 1);
        U128X128 { limbs }
    }

    /// Reciprocal, rounded down to the grid.
    pub fn recip(&self) -> (r: Self)
        requires
            self.wf(),
            self.as_nat() > 0,
            (Self::scale() * Self::scale()) / self.as_nat() < Self::modulus(),
        ensures
            r.wf(),
            r.as_nat() == (Self::scale() * Self::scale()) / self.as_nat(),
    {
        let one = Self::one();
        one.div(self)
    }
}

} // verus!
