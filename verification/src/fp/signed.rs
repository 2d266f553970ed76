//! Signed fixed point: an unsigned magnitude together with a sign flag.
//!
//! Zero may carry either sign; the interpreted value [`Signed::int_val`]
//! treats both alike.

use vstd::prelude::*;

use crate::fp::Error;
use crate::fp::u128x128::U128X128;
use crate::fp::u192x64::U192X64;
use crate::fp::u192x192::U192X192;
use crate::fp::u256x128::U256X128;
use crate::fp::u256x256::U256X256;
use crate::fp::u256x320::U256X320;
use crate::fp::u320x64::U320X64;
use crate::fp::u320x128::U320X128;

verus! {

/// What the signed wrapper needs from an unsigned fixed-point magnitude.
pub trait FixedUnsigned: Sized {
    /// Raw magnitude.
    spec fn nat_val(&self) -> nat;

    /// Well-formedness of the representation.
    spec fn valid(&self) -> bool;

    /// One past the largest raw magnitude.
    spec fn limit() -> nat;

    /// Raw value of the number one, i.e. the fixed-point scale factor.
    spec fn fp_scale() -> nat;

    proof fn lemma_limit(&self)
        requires
            self.valid(),
        ensures
            self.nat_val() < Self::limit(),
            Self::fp_scale() > 0,
    ;

    fn unsigned_zero() -> (r: Self)
        ensures
            r.valid(),
            r.nat_val() == 0,
    ;

    fn unsigned_clone(&self) -> (r: Self)
        requires
            self.valid(),
        ensures
            r.valid(),
            r.nat_val() == self.nat_val(),
    ;

    fn unsigned_is_zero(&self) -> (r: bool)
        requires
            self.valid(),
        ensures
            r <==> self.nat_val() == 0,
    ;

    fn unsigned_lt(&self, other: &Self) -> (r: bool)
        requires
            self.valid(),
            other.valid(),
        ensures
            r <==> self.nat_val() < other.nat_val(),
    ;

    fn unsigned_checked_add(&self, other: &Self) -> (r: Option<Self>)
        requires
            self.valid(),
            other.valid(),
        ensures
            match r {
                Some(v) => v.valid() && v.nat_val() == self.nat_val() + other.nat_val()
                    && self.nat_val() + other.nat_val() < Self::limit(),
                None => self.nat_val() + other.nat_val() >= Self::limit(),
            },
    ;

    fn unsigned_sub(&self, other: &Self) -> (r: Self)
        requires
            self.valid(),
            other.valid(),
            other.nat_val() <= self.nat_val(),
        ensures
            r.valid(),
            r.nat_val() == self.nat_val() - other.nat_val(),
    ;

    fn unsigned_checked_mul(&self, other: &Self) -> (r: Option<Self>)
        requires
            self.valid(),
            other.valid(),
        ensures
            match r {
                Some(v) => v.valid() && v.nat_val() == (self.nat_val() * other.nat_val())
                    / Self::fp_scale() && (self.nat_val() * other.nat_val()) / Self::fp_scale()
                    < Self::limit(),
                None => (self.nat_val() * other.nat_val()) / Self::fp_scale() >= Self::limit(),
            },
    ;

    fn unsigned_checked_div(&self, other: &Self) -> (r: Option<Self>)
        requires
            self.valid(),
            other.valid(),
            other.nat_val() > 0,
        ensures
            match r {
                Some(v) => v.valid() && v.nat_val() == (self.nat_val() * Self::fp_scale())
                    / other.nat_val() && (self.nat_val() * Self::fp_scale()) / other.nat_val()
                    < Self::limit(),
                None => (self.nat_val() * Self::fp_scale()) / other.nat_val() >= Self::limit(),
            },
    ;
}

/// Signed fixed point value: `value` magnitude, `non_negative` sign.
pub struct Signed<T: FixedUnsigned> {
    pub value: T,
    pub non_negative: bool,
}

impl<T: FixedUnsigned> Signed<T> {
    /// Interpreted value.
    pub open spec fn int_val(&self) -> int {
        if self.non_negative {
            self.value.nat_val() as int
        } else {
            -(self.value.nat_val() as int)
        }
    }

    pub open spec fn valid(&self) -> bool {
        self.value.valid()
    }

    pub proof fn lemma_range(&self)
        requires
            self.valid(),
        ensures
            -(T::limit() as int) < self.int_val() < T::limit() as int,
    {
        self.value.lemma_limit();
    }

    pub fn zero() -> (r: Self)
        ensures
            r.valid(),
            r.int_val() == 0,
            r.non_negative,
    {
        Signed { value: T::unsigned_zero(), non_negative: true }
    }

    pub fn is_zero(&self) -> (r: bool)
        requires
            self.valid(),
        ensures
            r <==> self.int_val() == 0,
    {
        self.value.unsigned_is_zero()
    }

    pub fn clone(&self) -> (r: Self)
        requires
            self.valid(),
        ensures
            r.valid(),
            r.int_val() == self.int_val(),
            r.non_negative == self.non_negative,
            r.value.nat_val() == self.value.nat_val(),
    {
        Signed { value: self.value.unsigned_clone(), non_negative: self.non_negative }
    }

    /// Wrap an unsigned magnitude as a non-negative value.
    pub fn from_unsigned(value: T) -> (r: Self)
        requires
            value.valid(),
        ensures
            r.valid(),
            r.int_val() == value.nat_val(),
            r.non_negative,
    {
        Signed { value, non_negative: true }
    }

    /// Wrap an unsigned magnitude; present for interface completeness, the
    /// wrapping itself cannot fail.
    pub fn try_from_unsigned(value: T) -> (r: Result<Self, Error>)
        requires
            value.valid(),
        ensures
            match r {
                Ok(v) => v.valid() && v.int_val() == value.nat_val(),
                Err(_) => false,
            },
    {
        Ok(Signed { value, non_negative: true })
    }

    /// The magnitude, when the value is non-negative.
    pub fn try_into_unsigned(self) -> (r: Result<T, Error>)
        requires
            self.valid(),
        ensures
            match r {
                Ok(v) => v.valid() && self.int_val() >= 0 && v.nat_val() == self.int_val(),
                Err(e) => self.int_val() < 0 && e == Error::NegativeToUnsigned,
            },
    {
        if self.non_negative {
            Ok(self.value)
        } else {
            if self.value.unsigned_is_zero() {
                Ok(self.value)
            } else {
                Err(Error::NegativeToUnsigned)
            }
        }
    }

    pub fn neg(self) -> (r: Self)
        requires
            self.valid(),
        ensures
            r.valid(),
            r.int_val() == -self.int_val(),
    {
        let zero = self.value.unsigned_is_zero();
        let nn = !self.non_negative;
        Signed { value: self.value, non_negative: zero || nn }
    }

    /// The value with a negative sign on its magnitude.
    pub fn neg_from(self) -> (r: Self)
        requires
            self.valid(),
        ensures
            r.valid(),
            r.int_val() == -(self.value.nat_val() as int),
    {
        if !self.non_negative {
            self
        } else {
            Signed { value: self.value, non_negative: false }
        }
    }

    /// The value unchanged; mirrors [`Signed::neg_from`].
    pub fn pos_from(self) -> (r: Self)
        requires
            self.valid(),
        ensures
            r.valid(),
            r.int_val() == self.int_val(),
    {
        self
    }

    pub fn checked_add(&self, rhs: &Self) -> (r: Option<Self>)
        requires
            self.valid(),
            rhs.valid(),
        ensures
            match r {
                Some(v) => v.valid() && v.int_val() == self.int_val() + rhs.int_val(),
                None => self.int_val() + rhs.int_val() >= T::limit() as int || self.int_val()
                    + rhs.int_val() <= -(T::limit() as int),
            },
    {
        if self.non_negative == rhs.non_negative {
            match self.value.unsigned_checked_add(&rhs.value) {
                Some(value) => Some(Signed { value, non_negative: self.non_negative }),
                None => None,
            }
        } else {
            if rhs.value.unsigned_lt(&self.value) {
                Some(
                    Signed {
                        value: self.value.unsigned_sub(&rhs.value),
                        non_negative: self.non_negative,
                    },
                )
            } else {
                Some(
                    Signed {
                        value: rhs.value.unsigned_sub(&self.value),
                        non_negative: rhs.non_negative,
                    },
                )
            }
        }
    }

    pub fn checked_sub(&self, rhs: &Self) -> (r: Option<Self>)
        requires
            self.valid(),
            rhs.valid(),
        ensures
            match r {
                Some(v) => v.valid() && v.int_val() == self.int_val() - rhs.int_val(),
                None => self.int_val() - rhs.int_val() >= T::limit() as int || self.int_val()
                    - rhs.int_val() <= -(T::limit() as int),
            },
    {
        let rhs_neg = Signed {
            value: rhs.value.unsigned_clone(),
            non_negative: !rhs.non_negative,
        };
        proof {
            if rhs.value.nat_val() == 0 {
                assert(rhs_neg.int_val() == -rhs.int_val());
            }
        }
        self.checked_add(&rhs_neg)
    }

    pub fn checked_mul(&self, rhs: &Self) -> (r: Option<Self>)
        requires
            self.valid(),
            rhs.valid(),
        ensures
            match r {
                Some(v) => {
                    &&& v.valid()
                    &&& v.int_val() == if self.non_negative == rhs.non_negative {
                        ((self.value.nat_val() * rhs.value.nat_val()) / T::fp_scale()) as int
                    } else {
                        -(((self.value.nat_val() * rhs.value.nat_val()) / T::fp_scale()) as int)
                    }
                },
                None => (self.value.nat_val() * rhs.value.nat_val()) / T::fp_scale()
                    >= T::limit(),
            },
    {
        match self.value.unsigned_checked_mul(&rhs.value) {
            Some(value) => {
                let zero = value.unsigned_is_zero();
                Some(
                    Signed {
                        value,
                        non_negative: zero || self.non_negative == rhs.non_negative,
                    },
                )
            },
            None => None,
        }
    }

    pub fn checked_div(&self, rhs: &Self) -> (r: Option<Self>)
        requires
            self.valid(),
            rhs.valid(),
            rhs.value.nat_val() > 0,
        ensures
            match r {
                Some(v) => {
                    &&& v.valid()
                    &&& v.int_val() == if self.non_negative == rhs.non_negative {
                        ((self.value.nat_val() * T::fp_scale()) / rhs.value.nat_val()) as int
                    } else {
                        -(((self.value.nat_val() * T::fp_scale()) / rhs.value.nat_val()) as int)
                    }
                },
                None => (self.value.nat_val() * T::fp_scale()) / rhs.value.nat_val()
                    >= T::limit(),
            },
    {
        match self.value.unsigned_checked_div(&rhs.value) {
            Some(value) => {
                let zero = value.unsigned_is_zero();
                Some(
                    Signed {
                        value,
                        non_negative: zero || self.non_negative == rhs.non_negative,
                    },
                )
            },
            None => None,
        }
    }

    pub fn lt(&self, rhs: &Self) -> (r: bool)
        requires
            self.valid(),
            rhs.valid(),
        ensures
            r <==> self.int_val() < rhs.int_val(),
    {
        let az = self.value.unsigned_is_zero();
        let bz = rhs.value.unsigned_is_zero();
        if az && bz {
            false
        } else if az {
            rhs.non_negative
        } else if bz {
            !self.non_negative
        } else if self.non_negative != rhs.non_negative {
            !self.non_negative
        } else if self.non_negative {
            self.value.unsigned_lt(&rhs.value)
        } else {
            rhs.value.unsigned_lt(&self.value)
        }
    }

    pub fn le(&self, rhs: &Self) -> (r: bool)
        requires
            self.valid(),
            rhs.valid(),
        ensures
            r <==> self.int_val() <= rhs.int_val(),
    {
        !rhs.lt(self)
    }

    pub fn eq_val(&self, rhs: &Self) -> (r: bool)
        requires
            self.valid(),
            rhs.valid(),
        ensures
            r <==> self.int_val() == rhs.int_val(),
    {
        !self.lt(rhs) && !rhs.lt(self)
    }
}


impl FixedUnsigned for U128X128 {
    open spec fn nat_val(&self) -> nat {
        self.as_nat()
    }

    open spec fn valid(&self) -> bool {
        self.wf()
    }

    open spec fn limit() -> nat {
        Self::modulus()
    }

    open spec fn fp_scale() -> nat {
        Self::scale()
    }

    proof fn lemma_limit(&self) {
        self.lemma_as_nat_bound();
        vstd::arithmetic::power2::lemma_pow2_pos(128);
    }

    fn unsigned_zero() -> (r: Self) {
        Self::zero()
    }

    fn unsigned_clone(&self) -> (r: Self) {
        self.clone()
    }

    fn unsigned_is_zero(&self) -> (r: bool) {
        self.is_zero()
    }

    fn unsigned_lt(&self, other: &Self) -> (r: bool) {
        self.lt(other)
    }

    fn unsigned_checked_add(&self, other: &Self) -> (r: Option<Self>) {
        self.checked_add(other)
    }

    fn unsigned_sub(&self, other: &Self) -> (r: Self) {
        self.sub(other)
    }

    fn unsigned_checked_mul(&self, other: &Self) -> (r: Option<Self>) {
        self.checked_mul(other)
    }

    fn unsigned_checked_div(&self, other: &Self) -> (r: Option<Self>) {
        self.checked_div(other)
    }
}

impl FixedUnsigned for U192X64 {
    open spec fn nat_val(&self) -> nat {
        self.as_nat()
    }

    open spec fn valid(&self) -> bool {
        self.wf()
    }

    open spec fn limit() -> nat {
        Self::modulus()
    }

    open spec fn fp_scale() -> nat {
        Self::scale()
    }

    proof fn lemma_limit(&self) {
        self.lemma_as_nat_bound();
        vstd::arithmetic::power2::lemma_pow2_pos(64);
    }

    fn unsigned_zero() -> (r: Self) {
        Self::zero()
    }

    fn unsigned_clone(&self) -> (r: Self) {
        self.clone()
    }

    fn unsigned_is_zero(&self) -> (r: bool) {
        self.is_zero()
    }

    fn unsigned_lt(&self, other: &Self) -> (r: bool) {
        self.lt(other)
    }

    fn unsigned_checked_add(&self, other: &Self) -> (r: Option<Self>) {
        self.checked_add(other)
    }

    fn unsigned_sub(&self, other: &Self) -> (r: Self) {
        self.sub(other)
    }

    fn unsigned_checked_mul(&self, other: &Self) -> (r: Option<Self>) {
        self.checked_mul(other)
    }

    fn unsigned_checked_div(&self, other: &Self) -> (r: Option<Self>) {
        self.checked_div(other)
    }
}

impl FixedUnsigned for U192X192 {
    open spec fn nat_val(&self) -> nat {
        self.as_nat()
    }

    open spec fn valid(&self) -> bool {
        self.wf()
    }

    open spec fn limit() -> nat {
        Self::modulus()
    }

    open spec fn fp_scale() -> nat {
        Self::scale()
    }

    proof fn lemma_limit(&self) {
        self.lemma_as_nat_bound();
        vstd::arithmetic::power2::lemma_pow2_pos(192);
    }

    fn unsigned_zero() -> (r: Self) {
        Self::zero()
    }

    fn unsigned_clone(&self) -> (r: Self) {
        self.clone()
    }

    fn unsigned_is_zero(&self) -> (r: bool) {
        self.is_zero()
    }

    fn unsigned_lt(&self, other: &Self) -> (r: bool) {
        self.lt(other)
    }

    fn unsigned_checked_add(&self, other: &Self) -> (r: Option<Self>) {
        self.checked_add(other)
    }

    fn unsigned_sub(&self, other: &Self) -> (r: Self) {
        self.sub(other)
    }

    fn unsigned_checked_mul(&self, other: &Self) -> (r: Option<Self>) {
        self.checked_mul(other)
    }

    fn unsigned_checked_div(&self, other: &Self) -> (r: Option<Self>) {
        self.checked_div(other)
    }
}

impl FixedUnsigned for U256X128 {
    open spec fn nat_val(&self) -> nat {
        self.as_nat()
    }

    open spec fn valid(&self) -> bool {
        self.wf()
    }

    open spec fn limit() -> nat {
        Self::modulus()
    }

    open spec fn fp_scale() -> nat {
        Self::scale()
    }

    proof fn lemma_limit(&self) {
        self.lemma_as_nat_bound();
        vstd::arithmetic::power2::lemma_pow2_pos(128);
    }

    fn unsigned_zero() -> (r: Self) {
        Self::zero()
    }

    fn unsigned_clone(&self) -> (r: Self) {
        self.clone()
    }

    fn unsigned_is_zero(&self) -> (r: bool) {
        self.is_zero()
    }

    fn unsigned_lt(&self, other: &Self) -> (r: bool) {
        self.lt(other)
    }

    fn unsigned_checked_add(&self, other: &Self) -> (r: Option<Self>) {
        self.checked_add(other)
    }

    fn unsigned_sub(&self, other: &Self) -> (r: Self) {
        self.sub(other)
    }

    fn unsigned_checked_mul(&self, other: &Self) -> (r: Option<Self>) {
        self.checked_mul(other)
    }

    fn unsigned_checked_div(&self, other: &Self) -> (r: Option<Self>) {
        self.checked_div(other)
    }
}

impl FixedUnsigned for U256X256 {
    open spec fn nat_val(&self) -> nat {
        self.as_nat()
    }

    open spec fn valid(&self) -> bool {
        self.wf()
    }

    open spec fn limit() -> nat {
        Self::modulus()
    }

    open spec fn fp_scale() -> nat {
        Self::scale()
    }

    proof fn lemma_limit(&self) {
        self.lemma_as_nat_bound();
        vstd::arithmetic::power2::lemma_pow2_pos(256);
    }

    fn unsigned_zero() -> (r: Self) {
        Self::zero()
    }

    fn unsigned_clone(&self) -> (r: Self) {
        self.clone()
    }

    fn unsigned_is_zero(&self) -> (r: bool) {
        self.is_zero()
    }

    fn unsigned_lt(&self, other: &Self) -> (r: bool) {
        self.lt(other)
    }

    fn unsigned_checked_add(&self, other: &Self) -> (r: Option<Self>) {
        self.checked_add(other)
    }

    fn unsigned_sub(&self, other: &Self) -> (r: Self) {
        self.sub(other)
    }

    fn unsigned_checked_mul(&self, other: &Self) -> (r: Option<Self>) {
        self.checked_mul(other)
    }

    fn unsigned_checked_div(&self, other: &Self) -> (r: Option<Self>) {
        self.checked_div(other)
    }
}

impl FixedUnsigned for U256X320 {
    open spec fn nat_val(&self) -> nat {
        self.as_nat()
    }

    open spec fn valid(&self) -> bool {
        self.wf()
    }

    open spec fn limit() -> nat {
        Self::modulus()
    }

    open spec fn fp_scale() -> nat {
        Self::scale()
    }

    proof fn lemma_limit(&self) {
        self.lemma_as_nat_bound();
        vstd::arithmetic::power2::lemma_pow2_pos(320);
    }

    fn unsigned_zero() -> (r: Self) {
        Self::zero()
    }

    fn unsigned_clone(&self) -> (r: Self) {
        self.clone()
    }

    fn unsigned_is_zero(&self) -> (r: bool) {
        self.is_zero()
    }

    fn unsigned_lt(&self, other: &Self) -> (r: bool) {
        self.lt(other)
    }

    fn unsigned_checked_add(&self, other: &Self) -> (r: Option<Self>) {
        self.checked_add(other)
    }

    fn unsigned_sub(&self, other: &Self) -> (r: Self) {
        self.sub(other)
    }

    fn unsigned_checked_mul(&self, other: &Self) -> (r: Option<Self>) {
        self.checked_mul(other)
    }

    fn unsigned_checked_div(&self, other: &Self) -> (r: Option<Self>) {
        self.checked_div(other)
    }
}

impl FixedUnsigned for U320X64 {
    open spec fn nat_val(&self) -> nat {
        self.as_nat()
    }

    open spec fn valid(&self) -> bool {
        self.wf()
    }

    open spec fn limit() -> nat {
        Self::modulus()
    }

    open spec fn fp_scale() -> nat {
        Self::scale()
    }

    proof fn lemma_limit(&self) {
        self.lemma_as_nat_bound();
        vstd::arithmetic::power2::lemma_pow2_pos(64);
    }

    fn unsigned_zero() -> (r: Self) {
        Self::zero()
    }

    fn unsigned_clone(&self) -> (r: Self) {
        self.clone()
    }

    fn unsigned_is_zero(&self) -> (r: bool) {
        self.is_zero()
    }

    fn unsigned_lt(&self, other: &Self) -> (r: bool) {
        self.lt(other)
    }

    fn unsigned_checked_add(&self, other: &Self) -> (r: Option<Self>) {
        self.checked_add(other)
    }

    fn unsigned_sub(&self, other: &Self) -> (r: Self) {
        self.sub(other)
    }

    fn unsigned_checked_mul(&self, other: &Self) -> (r: Option<Self>) {
        self.checked_mul(other)
    }

    fn unsigned_checked_div(&self, other: &Self) -> (r: Option<Self>) {
        self.checked_div(other)
    }
}

impl FixedUnsigned for U320X128 {
    open spec fn nat_val(&self) -> nat {
        self.as_nat()
    }

    open spec fn valid(&self) -> bool {
        self.wf()
    }

    open spec fn limit() -> nat {
        Self::modulus()
    }

    open spec fn fp_scale() -> nat {
        Self::scale()
    }

    proof fn lemma_limit(&self) {
        self.lemma_as_nat_bound();
        vstd::arithmetic::power2::lemma_pow2_pos(128);
    }

    fn unsigned_zero() -> (r: Self) {
        Self::zero()
    }

    fn unsigned_clone(&self) -> (r: Self) {
        self.clone()
    }

    fn unsigned_is_zero(&self) -> (r: bool) {
        self.is_zero()
    }

    fn unsigned_lt(&self, other: &Self) -> (r: bool) {
        self.lt(other)
    }

    fn unsigned_checked_add(&self, other: &Self) -> (r: Option<Self>) {
        self.checked_add(other)
    }

    fn unsigned_sub(&self, other: &Self) -> (r: Self) {
        self.sub(other)
    }

    fn unsigned_checked_mul(&self, other: &Self) -> (r: Option<Self>) {
        self.checked_mul(other)
    }

    fn unsigned_checked_div(&self, other: &Self) -> (r: Option<Self>) {
        self.checked_div(other)
    }
}

/// 128.128 signed fixed point.
pub type I128X128 = Signed<U128X128>;

/// 192.64 signed fixed point.
pub type I192X64 = Signed<U192X64>;

/// 192.192 signed fixed point.
pub type I192X192 = Signed<U192X192>;

/// 256.128 signed fixed point.
pub type I256X128 = Signed<U256X128>;

/// 256.256 signed fixed point.
pub type I256X256 = Signed<U256X256>;

/// 256.320 signed fixed point.
pub type I256X320 = Signed<U256X320>;

/// 320.64 signed fixed point.
pub type I320X64 = Signed<U320X64>;

} // verus!
