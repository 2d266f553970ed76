//! Exact arithmetic on little-endian sequences of 64-bit limbs.
//!
//! Every wide integer in this crate is a `Vec<u64>` of a fixed length; the
//! mathematical value of such a vector is given by [`limb_val`].  All
//! operations in this module carry exact contracts over that value.

use vstd::prelude::*;
use vstd::arithmetic::power2::*;
use vstd::arithmetic::mul::*;
use vstd::arithmetic::div_mod::*;
use vstd::bits::*;

verus! {

/// Value of a little-endian limb sequence: `s[0] + 2^64*s[1] + 2^128*s[2] + ...`
pub open spec fn limb_val(s: Seq<u64>) -> nat
    decreases s.len(),
{
    if s.len() == 0 {
        0
    } else {
        (s[0] as nat) + 0x10000000000000000 * limb_val(s.skip(1))
    }
}

pub proof fn lemma_limb_val_push(s: Seq<u64>, x: u64)
    ensures
        limb_val(s.push(x)) == limb_val(s) + (x as nat) * pow2(64 * s.len()),
    decreases s.len(),
{
    lemma_pow2_pos(64 * s.len());
    if s.len() == 0 {
        assert(s.push(x) =~= seq![x]);
        assert(limb_val(seq![x].skip(1)) == 0) by {
            assert(seq![x].skip(1) =~= Seq::<u64>::empty());
        }
        lemma2_to64();
        assert(pow2(0) == 1);
        assert((x as nat) * 1 == x as nat) by (nonlinear_arith);
    } else {
        assert(s.push(x).skip(1) =~= s.skip(1).push(x));
        lemma_limb_val_push(s.skip(1), x);
        assert(s.skip(1).len() == s.len() - 1);
        lemma_pow2_adds(64, 64 * (s.len() - 1) as nat);
        assert(64 * s.len() == 64 + 64 * (s.len() - 1) as nat);
        // limb_val(s.push(x)) == s[0] + B * (limb_val(s.skip(1)) + x * pow2(64*(len-1)))
        //                     == limb_val(s) + x * B * pow2(64*(len-1))
        assert(0x10000000000000000 * (limb_val(s.skip(1)) + (x as nat) * pow2(
            64 * (s.len() - 1) as nat,
        )) == 0x10000000000000000 * limb_val(s.skip(1)) + (x as nat) * (0x10000000000000000 * pow2(
            64 * (s.len() - 1) as nat,
        ))) by (nonlinear_arith);
        assert(pow2(64) == 0x10000000000000000) by {
            lemma2_to64();
        }
    }
}

pub proof fn lemma_limb_val_take_succ(s: Seq<u64>, i: int)
    requires
        0 <= i < s.len(),
    ensures
        limb_val(s.take(i + 1)) == limb_val(s.take(i)) + (s[i] as nat) * pow2((64 * i) as nat),
{
    assert(s.take(i + 1) =~= s.take(i).push(s[i]));
    lemma_limb_val_push(s.take(i), s[i]);
}

pub proof fn lemma_limb_val_bound(s: Seq<u64>)
    ensures
        limb_val(s) < pow2(64 * s.len()),
    decreases s.len(),
{
    lemma_pow2_pos(64 * s.len());
    if s.len() == 0 {
        lemma2_to64();
    } else {
        lemma_limb_val_bound(s.skip(1));
        lemma_pow2_adds(64, 64 * (s.len() - 1) as nat);
        lemma2_to64();
        assert(64 * s.len() == 64 + 64 * (s.len() - 1) as nat);
        // s[0] <= B - 1 and limb_val(skip) <= pow2(64*(len-1)) - 1
        assert(0x10000000000000000 * limb_val(s.skip(1)) <= 0x10000000000000000 * (pow2(
            64 * (s.len() - 1) as nat,
        ) - 1)) by (nonlinear_arith)
            requires
                limb_val(s.skip(1)) <= pow2(64 * (s.len() - 1) as nat) - 1,
        ;
    }
}

pub proof fn lemma_limb_val_split(s: Seq<u64>, k: int)
    requires
        0 <= k <= s.len(),
    ensures
        limb_val(s) == limb_val(s.take(k)) + limb_val(s.skip(k)) * pow2((64 * k) as nat),
    decreases k,
{
    if k == 0 {
        assert(s.take(0) =~= Seq::<u64>::empty());
        assert(s.skip(0) =~= s);
        lemma2_to64();
        assert(limb_val(s) * 1 == limb_val(s)) by (nonlinear_arith);
    } else {
        lemma_limb_val_split(s, k - 1);
        lemma_limb_val_take_succ(s, k - 1);
        // s.skip(k-1) == seq![s[k-1]] + s.skip(k)
        assert(s.skip(k - 1).len() > 0);
        assert(s.skip(k - 1)[0] == s[k - 1]);
        assert(s.skip(k - 1).skip(1) =~= s.skip(k));
        assert(limb_val(s.skip(k - 1)) == (s[k - 1] as nat) + 0x10000000000000000 * limb_val(
            s.skip(k),
        ));
        lemma_pow2_adds((64 * (k - 1)) as nat, 64);
        lemma2_to64();
        assert((64 * k) as nat == (64 * (k - 1)) as nat + 64);
        let p1 = pow2((64 * (k - 1)) as nat);
        let pk = pow2((64 * k) as nat);
        assert(pk == p1 * 0x10000000000000000);
        assert(((s[k - 1] as nat) + 0x10000000000000000 * limb_val(s.skip(k))) * p1 == (s[k
            - 1] as nat) * p1 + limb_val(s.skip(k)) * (p1 * 0x10000000000000000))
            by (nonlinear_arith);
    }
}

pub proof fn lemma_limb_val_zero_iff(s: Seq<u64>)
    ensures
        limb_val(s) == 0 <==> (forall|i: int| 0 <= i < s.len() ==> s[i] == 0),
    decreases s.len(),
{
    if s.len() > 0 {
        lemma_limb_val_zero_iff(s.skip(1));
        if limb_val(s) == 0 {
            assert(0x10000000000000000 * limb_val(s.skip(1)) >= 0) by (nonlinear_arith);
            assert(s[0] == 0);
            assert(limb_val(s.skip(1)) == 0) by (nonlinear_arith)
                requires
                    0x10000000000000000 * limb_val(s.skip(1)) == 0,
            ;
            assert forall|i: int| 0 <= i < s.len() implies s[i] == 0 by {
                if i > 0 {
                    assert(s.skip(1)[i - 1] == s[i]);
                }
            }
        } else {
            if forall|i: int| 0 <= i < s.len() ==> s[i] == 0 {
                assert(forall|i: int|
                    0 <= i < s.skip(1).len() ==> #[trigger] s.skip(1)[i] == s[i + 1]);
                assert(limb_val(s.skip(1)) == 0);
                assert(limb_val(s) == (s[0] as nat) + 0x10000000000000000 * 0);
            }
        }
    }
}

/// A vector of `n` zero limbs.
pub fn limbs_zero(n: usize) -> (r: Vec<u64>)
    ensures
        r@.len() == n,
        limb_val(r@) == 0,
        forall|i: int| 0 <= i < n ==> r@[i] == 0,
{
    let mut r: Vec<u64> = Vec::new();
    let mut i: usize = 0;
    while i < n
        invariant
            i <= n,
            r@.len() == i,
            forall|j: int| 0 <= j < i ==> r@[j] == 0,
        decreases n - i,
    {
        r.push(0);
        i = i + 1;
    }
    proof {
        lemma_limb_val_zero_iff(r@);
    }
    r
}

/// Copy of a limb vector.
pub fn limbs_copy(a: &Vec<u64>) -> (r: Vec<u64>)
    ensures
        r@ =~= a@,
{
    let mut r: Vec<u64> = Vec::new();
    let mut i: usize = 0;
    while i < a.len()
        invariant
            i <= a.len(),
            r@ =~= a@.take(i as int),
        decreases a.len() - i,
    {
        r.push(a[i]);
        i = i + 1;
    }
    r
}

/// First `n` limbs of `a`.
pub fn limbs_take(a: &Vec<u64>, n: usize) -> (r: Vec<u64>)
    requires
        n <= a@.len(),
    ensures
        r@ =~= a@.take(n as int),
        limb_val(r@) == limb_val(a@.take(n as int)),
{
    let mut r: Vec<u64> = Vec::new();
    let mut i: usize = 0;
    while i < n
        invariant
            i <= n,
            n <= a@.len(),
            r@ =~= a@.take(i as int),
        decreases n - i,
    {
        r.push(a[i]);
        i = i + 1;
    }
    r
}

/// `a` extended with zero limbs up to length `n`; the value is unchanged.
pub fn limbs_pad(a: &Vec<u64>, n: usize) -> (r: Vec<u64>)
    requires
        a@.len() <= n,
    ensures
        r@.len() == n,
        limb_val(r@) == limb_val(a@),
        r@.take(a@.len() as int) =~= a@,
        forall|i: int| a@.len() <= i < n ==> r@[i] == 0,
{
    let mut r: Vec<u64> = limbs_copy(a);
    while r.len() < n
        invariant
            a@.len() <= r@.len() <= n,
            limb_val(r@) == limb_val(a@),
            r@.take(a@.len() as int) =~= a@,
            forall|i: int| a@.len() <= i < r@.len() ==> r@[i] == 0,
        decreases n - r.len(),
    {
        proof {
            lemma_limb_val_push(r@, 0);
        }
        r.push(0);
    }
    r
}

proof fn lemma_add_step(out: nat, c: nat, ai: nat, bi: nat, low: nat, c2: nat, p: nat)
    requires
        low + 0x10000000000000000 * c2 == c + ai + bi,
    ensures
        out + c * p + (ai + bi) * p == out + low * p + c2 * (p * 0x10000000000000000),
{
    assert((c + ai + bi) * p == c * p + (ai + bi) * p) by (nonlinear_arith);
    assert((low + 0x10000000000000000 * c2) * p == low * p + c2 * (p * 0x10000000000000000))
        by (nonlinear_arith);
}

/// Exact addition with a carry-out flag.
pub fn limbs_add_carry(a: &Vec<u64>, b: &Vec<u64>) -> (r: (Vec<u64>, bool))
    requires
        a@.len() == b@.len(),
    ensures
        r.0@.len() == a@.len(),
        limb_val(r.0@) + (if r.1 {
            1nat
        } else {
            0nat
        }) * pow2(64 * a@.len()) == limb_val(a@) + limb_val(b@),
{
    let n: usize = a.len();
    let mut out: Vec<u64> = Vec::new();
    let mut carry: bool = false;
    let mut i: usize = 0;
    proof {
        assert(a@.take(0) =~= Seq::<u64>::empty());
        assert(b@.take(0) =~= Seq::<u64>::empty());
        lemma2_to64();
    }
    while i < n
        invariant
            i <= n,
            n == a@.len() == b@.len(),
            out@.len() == i,
            limb_val(out@) + (if carry {
                1nat
            } else {
                0nat
            }) * pow2(64 * i as nat) == limb_val(a@.take(i as int)) + limb_val(b@.take(i as int)),
        decreases n - i,
    {
        let c_in: u128 = if carry {
            1
        } else {
            0
        };
        let s: u128 = (a[i] as u128) + (b[i] as u128) + c_in;
        let low: u64 = (s % 0x10000000000000000) as u64;
        let high: u64 = (s / 0x10000000000000000) as u64;
        proof {
            let p = pow2(64 * i as nat);
            lemma_pow2_pos(p as nat);
            lemma_limb_val_take_succ(a@, i as int);
            lemma_limb_val_take_succ(b@, i as int);
            lemma_limb_val_push(out@, low);
            lemma_pow2_adds(64 * i as nat, 64);
            assert(64 * (i + 1) as nat == 64 * i as nat + 64);
            lemma2_to64();
            assert(pow2(64 * (i + 1) as nat) == p * 0x10000000000000000);
            assert((low as nat) + 0x10000000000000000 * (high as nat) == c_in + (a@[i as int] as nat)
                + (b@[i as int] as nat));
            assert(high <= 1);
            lemma_add_step(
                limb_val(out@),
                c_in as nat,
                a@[i as int] as nat,
                b@[i as int] as nat,
                low as nat,
                high as nat,
                p,
            );
            assert((a@[i as int] as nat + b@[i as int] as nat) * p == (a@[i as int] as nat) * p + (
            b@[i as int] as nat) * p) by (nonlinear_arith);
        }
        out.push(low);
        carry = high == 1;
        i = i + 1;
    }
    proof {
        assert(a@.take(n as int) =~= a@);
        assert(b@.take(n as int) =~= b@);
    }
    (out, carry)
}

/// Exact addition; the sum must fit in the common width.
pub fn limbs_add_exact(a: &Vec<u64>, b: &Vec<u64>) -> (r: Vec<u64>)
    requires
        a@.len() == b@.len(),
        limb_val(a@) + limb_val(b@) < pow2(64 * a@.len()),
    ensures
        r@.len() == a@.len(),
        limb_val(r@) == limb_val(a@) + limb_val(b@),
{
    let (out, carry) = limbs_add_carry(a, b);
    proof {
        lemma_pow2_pos(64 * a@.len());
        if carry {
            assert(limb_val(out@) + 1 * pow2(64 * a@.len()) >= pow2(64 * a@.len()))
                by (nonlinear_arith);
        }
        assert(limb_val(out@) + 0 * pow2(64 * a@.len()) == limb_val(out@)) by (nonlinear_arith);
    }
    out
}

/// Addition that reports overflow instead of requiring its absence.
pub fn limbs_checked_add(a: &Vec<u64>, b: &Vec<u64>) -> (r: Option<Vec<u64>>)
    requires
        a@.len() == b@.len(),
    ensures
        match r {
            Some(v) => {
                &&& v@.len() == a@.len()
                &&& limb_val(v@) == limb_val(a@) + limb_val(b@)
                &&& limb_val(a@) + limb_val(b@) < pow2(64 * a@.len())
            },
            None => limb_val(a@) + limb_val(b@) >= pow2(64 * a@.len()),
        },
{
    let (out, carry) = limbs_add_carry(a, b);
    proof {
        lemma_pow2_pos(64 * a@.len());
        lemma_limb_val_bound(out@);
        assert(limb_val(out@) + 0 * pow2(64 * a@.len()) == limb_val(out@)) by (nonlinear_arith);
        if carry {
            assert(limb_val(out@) + 1 * pow2(64 * a@.len()) == limb_val(out@) + pow2(64 * a@.len()))
                by (nonlinear_arith);
        }
    }
    if carry {
        None
    } else {
        Some(out)
    }
}

proof fn lemma_sub_step(out: nat, brw: nat, ai: nat, bi: nat, low: nat, brw2: nat, p: nat)
    requires
        low == ai + 0x10000000000000000 * brw2 - bi - brw,
    ensures
        out + low * p + (bi + brw) * p == out + ai * p + brw2 * (p * 0x10000000000000000),
{
    assert((low + bi + brw) * p == low * p + (bi + brw) * p) by (nonlinear_arith);
    assert((ai + 0x10000000000000000 * brw2) * p == ai * p + brw2 * (p * 0x10000000000000000))
        by (nonlinear_arith);
}

/// Exact subtraction; requires `limb_val(b) <= limb_val(a)`.
pub fn limbs_sub_exact(a: &Vec<u64>, b: &Vec<u64>) -> (r: Vec<u64>)
    requires
        a@.len() == b@.len(),
        limb_val(b@) <= limb_val(a@),
    ensures
        r@.len() == a@.len(),
        limb_val(r@) == limb_val(a@) - limb_val(b@),
{
    let n: usize = a.len();
    let mut out: Vec<u64> = Vec::new();
    let mut borrow: bool = false;
    let mut i: usize = 0;
    proof {
        assert(a@.take(0) =~= Seq::<u64>::empty());
        assert(b@.take(0) =~= Seq::<u64>::empty());
        lemma2_to64();
    }
    while i < n
        invariant
            i <= n,
            n == a@.len() == b@.len(),
            out@.len() == i,
            limb_val(out@) + limb_val(b@.take(i as int)) == limb_val(a@.take(i as int)) + (
            if borrow {
                1nat
            } else {
                0nat
            }) * pow2(64 * i as nat),
        decreases n - i,
    {
        let b_in: u128 = if borrow {
            1
        } else {
            0
        };
        let lhs: u128 = a[i] as u128;
        let rhs: u128 = (b[i] as u128) + b_in;
        let new_borrow: bool = lhs < rhs;
        let low: u64 = if new_borrow {
            ((lhs + 0x10000000000000000) - rhs) as u64
        } else {
            (lhs - rhs) as u64
        };
        proof {
            let p = pow2(64 * i as nat);
            lemma_limb_val_take_succ(a@, i as int);
            lemma_limb_val_take_succ(b@, i as int);
            lemma_limb_val_push(out@, low);
            lemma_pow2_adds(64 * i as nat, 64);
            assert(64 * (i + 1) as nat == 64 * i as nat + 64);
            lemma2_to64();
            assert(pow2(64 * (i + 1) as nat) == p * 0x10000000000000000);
            let brw2: nat = if new_borrow {
                1
            } else {
                0
            };
            assert(low as nat == (a@[i as int] as nat) + 0x10000000000000000 * brw2 - (
            b@[i as int] as nat) - (b_in as nat));
            lemma_sub_step(
                limb_val(out@),
                b_in as nat,
                a@[i as int] as nat,
                b@[i as int] as nat,
                low as nat,
                brw2,
                p,
            );
            assert((b@[i as int] as nat + b_in as nat) * p == (b@[i as int] as nat) * p + (
            b_in as nat) * p) by (nonlinear_arith);
        }
        out.push(low);
        borrow = new_borrow;
        i = i + 1;
    }
    proof {
        assert(a@.take(n as int) =~= a@);
        assert(b@.take(n as int) =~= b@);
        if borrow {
            lemma_pow2_pos(64 * n as nat);
            assert(1nat * pow2(64 * n as nat) == pow2(64 * n as nat)) by (nonlinear_arith);
            lemma_limb_val_bound(out@);
            assert(false);
        }
        assert(0nat * pow2(64 * n as nat) == 0) by (nonlinear_arith);
    }
    out
}

proof fn lemma_val_cmp(a: Seq<u64>, b: Seq<u64>, i: int)
    requires
        a.len() == b.len(),
        0 <= i < a.len(),
        a.skip(i + 1) =~= b.skip(i + 1),
        a[i] < b[i],
    ensures
        limb_val(a) < limb_val(b),
{
    lemma_limb_val_split(a, i);
    lemma_limb_val_split(b, i);
    let p = pow2((64 * i) as nat);
    lemma_pow2_pos((64 * i) as nat);
    // skip(i) values: a[i] + B * rest, with equal rests
    assert(a.skip(i).skip(1) =~= a.skip(i + 1));
    assert(b.skip(i).skip(1) =~= b.skip(i + 1));
    assert(a.skip(i)[0] == a[i]);
    assert(b.skip(i)[0] == b[i]);
    assert(limb_val(a.skip(i)) == (a[i] as nat) + 0x10000000000000000 * limb_val(a.skip(i + 1)));
    assert(limb_val(b.skip(i)) == (b[i] as nat) + 0x10000000000000000 * limb_val(b.skip(i + 1)));
    assert(limb_val(a.skip(i)) + 1 <= limb_val(b.skip(i)));
    lemma_limb_val_bound(a.take(i));
    assert(a.take(i).len() == i);
    // limb_val(a) = take + skip * p < p + skip * p <= b_skip * p <= limb_val(b)
    assert(limb_val(a.take(i)) + limb_val(a.skip(i)) * p < limb_val(b.skip(i)) * p)
        by (nonlinear_arith)
        requires
            limb_val(a.take(i)) < p,
            limb_val(a.skip(i)) + 1 <= limb_val(b.skip(i)),
            p > 0,
    ;
    assert(limb_val(b.take(i)) >= 0);
}

/// Strict comparison of equal-width limb vectors.
pub fn limbs_lt(a: &Vec<u64>, b: &Vec<u64>) -> (r: bool)
    requires
        a@.len() == b@.len(),
    ensures
        r <==> limb_val(a@) < limb_val(b@),
{
    let n: usize = a.len();
    let mut i: usize = n;
    proof {
        assert(a@.skip(n as int) =~= b@.skip(n as int));
    }
    while i > 0
        invariant
            i <= n,
            n == a@.len() == b@.len(),
            a@.skip(i as int) =~= b@.skip(i as int),
        decreases i,
    {
        i = i - 1;
        if a[i] < b[i] {
            proof {
                lemma_val_cmp(a@, b@, i as int);
            }
            return true;
        }
        if a[i] > b[i] {
            proof {
                lemma_val_cmp(b@, a@, i as int);
            }
            return false;
        }
        proof {
            assert forall|j: int|
                0 <= j < a@.skip(i as int).len() implies #[trigger] a@.skip(i as int)[j] == b@.skip(
                i as int,
            )[j] by {
                if j == 0 {
                    assert(a@.skip(i as int)[0] == a@[i as int]);
                } else {
                    assert(a@.skip(i as int)[j] == a@.skip(i + 1)[j - 1]);
                    assert(b@.skip(i as int)[j] == b@.skip(i + 1)[j - 1]);
                }
            }
            assert(a@.skip(i as int) =~= b@.skip(i as int));
        }
    }
    proof {
        assert(a@.skip(0) =~= a@);
        assert(b@.skip(0) =~= b@);
    }
    false
}

/// True iff the value is zero.
pub fn limbs_is_zero(a: &Vec<u64>) -> (r: bool)
    ensures
        r <==> limb_val(a@) == 0,
{
    let mut i: usize = 0;
    while i < a.len()
        invariant
            i <= a@.len(),
            forall|j: int| 0 <= j < i ==> a@[j] == 0,
        decreases a.len() - i,
    {
        if a[i] != 0 {
            proof {
                lemma_limb_val_zero_iff(a@);
            }
            return false;
        }
        i = i + 1;
    }
    proof {
        lemma_limb_val_zero_iff(a@);
    }
    true
}

/// True iff the value fits in `n` limbs, i.e. all higher limbs are zero.
pub fn limbs_fits(a: &Vec<u64>, n: usize) -> (r: bool)
    requires
        n <= a@.len(),
    ensures
        r <==> limb_val(a@) < pow2(64 * n as nat),
{
    let mut i: usize = n;
    let mut all_zero: bool = true;
    while i < a.len()
        invariant
            n <= i <= a@.len(),
            all_zero <==> (forall|j: int| n <= j < i ==> a@[j] == 0),
        decreases a.len() - i,
    {
        if a[i] != 0 {
            all_zero = false;
        }
        i = i + 1;
    }
    proof {
        lemma_limb_val_split(a@, n as int);
        lemma_limb_val_bound(a@.take(n as int));
        assert(a@.take(n as int).len() == n);
        lemma_pow2_pos(64 * n as nat);
        lemma_limb_val_zero_iff(a@.skip(n as int));
        if all_zero {
            assert(forall|j: int|
                0 <= j < a@.skip(n as int).len() ==> #[trigger] a@.skip(n as int)[j] == a@[j
                    + n]);
            assert(limb_val(a@.skip(n as int)) == 0);
            assert(limb_val(a@) == limb_val(a@.take(n as int)) + 0 * pow2(64 * n as nat));
            assert(0nat * pow2(64 * n as nat) == 0) by (nonlinear_arith);
        } else {
            assert(exists|j: int| n <= j < a@.len() && a@[j] != 0);
            let j = choose|j: int| n <= j < a@.len() && a@[j] != 0;
            assert(a@.skip(n as int)[j - n] != 0);
            assert(limb_val(a@.skip(n as int)) != 0);
            assert(limb_val(a@.skip(n as int)) * pow2(64 * n as nat) >= pow2(64 * n as nat))
                by (nonlinear_arith)
                requires
                    limb_val(a@.skip(n as int)) >= 1,
                    pow2(64 * n as nat) > 0,
            ;
        }
    }
    all_zero
}

/// First `n` limbs, valid when the value fits in `n` limbs.
pub fn limbs_truncate(a: &Vec<u64>, n: usize) -> (r: Vec<u64>)
    requires
        n <= a@.len(),
        limb_val(a@) < pow2(64 * n as nat),
    ensures
        r@.len() == n,
        limb_val(r@) == limb_val(a@),
{
    let r = limbs_take(a, n);
    proof {
        lemma_limb_val_split(a@, n as int);
        lemma_pow2_pos(64 * n as nat);
        lemma_limb_val_bound(a@.take(n as int));
        if limb_val(a@.skip(n as int)) > 0 {
            assert(limb_val(a@.skip(n as int)) * pow2(64 * n as nat) >= pow2(64 * n as nat))
                by (nonlinear_arith)
                requires
                    limb_val(a@.skip(n as int)) >= 1,
                    pow2(64 * n as nat) > 0,
            ;
        }
        assert(limb_val(a@.skip(n as int)) == 0);
        assert(limb_val(a@) == limb_val(a@.take(n as int)) + 0 * pow2(64 * n as nat));
        assert(0nat * pow2(64 * n as nat) == 0) by (nonlinear_arith);
    }
    r
}

pub proof fn lemma_limb_val_take_mod(s: Seq<u64>, k: int)
    requires
        0 <= k <= s.len(),
    ensures
        limb_val(s.take(k)) == limb_val(s) % pow2((64 * k) as nat),
{
    lemma_limb_val_split(s, k);
    lemma_limb_val_bound(s.take(k));
    assert(s.take(k).len() == k);
    lemma_pow2_pos((64 * k) as nat);
    lemma_fundamental_div_mod_converse(
        limb_val(s) as int,
        pow2((64 * k) as nat) as int,
        limb_val(s.skip(k)) as int,
        limb_val(s.take(k)) as int,
    );
}

/// `r` is the floor square root of `v`.
pub open spec fn is_nat_isqrt(r: nat, v: nat) -> bool {
    r * r <= v && v < (r + 1) * (r + 1)
}

/// Floor square root of a natural number.
pub open spec fn nat_isqrt(v: nat) -> nat {
    choose|r: nat| is_nat_isqrt(r, v)
}

pub proof fn lemma_nat_isqrt_is(v: nat, r: nat)
    requires
        r * r <= v,
        v < (r + 1) * (r + 1),
    ensures
        nat_isqrt(v) == r,
{
    assert(is_nat_isqrt(r, v));
    let x = choose|x: nat| is_nat_isqrt(x, v);
    assert(is_nat_isqrt(x, v));
    assert(x == r) by (nonlinear_arith)
        requires
            x * x <= v,
            v < (x + 1) * (x + 1),
            r * r <= v,
            v < (r + 1) * (r + 1),
    ;
}

pub proof fn lemma_limb_val_skip_div(s: Seq<u64>, k: int)
    requires
        0 <= k <= s.len(),
    ensures
        limb_val(s.skip(k)) == limb_val(s) / pow2((64 * k) as nat),
{
    lemma_limb_val_split(s, k);
    lemma_limb_val_bound(s.take(k));
    assert(s.take(k).len() == k);
    lemma_pow2_pos((64 * k) as nat);
    lemma_fundamental_div_mod_converse(
        limb_val(s) as int,
        pow2((64 * k) as nat) as int,
        limb_val(s.skip(k)) as int,
        limb_val(s.take(k)) as int,
    );
}

/// Drop the lowest `k` limbs: floor division by `2^(64k)`.
pub fn limbs_skip(a: &Vec<u64>, k: usize) -> (r: Vec<u64>)
    requires
        k <= a@.len(),
    ensures
        r@.len() == a@.len() - k,
        r@ =~= a@.skip(k as int),
        limb_val(r@) == limb_val(a@) / pow2((64 * k) as nat),
{
    let mut r: Vec<u64> = Vec::new();
    let mut i: usize = k;
    while i < a.len()
        invariant
            k <= i <= a@.len(),
            r@.len() == i - k,
            forall|j: int| 0 <= j < r@.len() ==> r@[j] == a@[j + k],
        decreases a.len() - i,
    {
        r.push(a[i]);
        i = i + 1;
    }
    proof {
        assert(r@ =~= a@.skip(k as int));
        lemma_limb_val_skip_div(a@, k as int);
    }
    r
}

/// Prepend `k` zero limbs: exact multiplication by `2^(64k)`.
pub fn limbs_shift_up(a: &Vec<u64>, k: usize) -> (r: Vec<u64>)
    requires
        a@.len() + k <= usize::MAX,
    ensures
        r@.len() == a@.len() + k,
        limb_val(r@) == limb_val(a@) * pow2((64 * k) as nat),
{
    let mut r: Vec<u64> = limbs_zero(k);
    let mut i: usize = 0;
    proof {
        lemma_pow2_pos((64 * k) as nat);
        assert(a@.take(0) =~= Seq::<u64>::empty());
        assert(0nat * pow2((64 * k) as nat) == 0) by (nonlinear_arith);
    }
    while i < a.len()
        invariant
            i <= a@.len(),
            r@.len() == i + k,
            limb_val(r@) == limb_val(a@.take(i as int)) * pow2((64 * k) as nat),
        decreases a.len() - i,
    {
        proof {
            lemma_limb_val_push(r@, a@[i as int]);
            lemma_limb_val_take_succ(a@, i as int);
            lemma_pow2_adds((64 * i) as nat, (64 * k) as nat);
            assert((64 * (i + k)) as nat == (64 * i) as nat + (64 * k) as nat);
            let pk = pow2((64 * k) as nat);
            let pi = pow2((64 * i) as nat);
            assert((limb_val(a@.take(i as int)) + (a@[i as int] as nat) * pi) * pk == limb_val(
                a@.take(i as int),
            ) * pk + (a@[i as int] as nat) * (pi * pk)) by (nonlinear_arith);
        }
        r.push(a[i]);
        i = i + 1;
    }
    proof {
        assert(a@.take(a@.len() as int) =~= a@);
    }
    r
}

proof fn lemma_carry_step(out: nat, c: nat, t: nat, low: nat, c2: nat, p: nat)
    requires
        low + 0x10000000000000000 * c2 == t + c,
    ensures
        out + c * p + t * p == out + low * p + c2 * (p * 0x10000000000000000),
{
    assert((t + c) * p == t * p + c * p) by (nonlinear_arith);
    assert((low + 0x10000000000000000 * c2) * p == low * p + c2 * (p * 0x10000000000000000))
        by (nonlinear_arith);
}

/// Exact multiplication by a single limb; the result has one limb more.
pub fn limbs_mul_limb(a: &Vec<u64>, m: u64) -> (r: Vec<u64>)
    requires
        a@.len() < usize::MAX,
    ensures
        r@.len() == a@.len() + 1,
        limb_val(r@) == limb_val(a@) * (m as nat),
{
    let n: usize = a.len();
    let mut out: Vec<u64> = Vec::new();
    let mut carry: u64 = 0;
    let mut i: usize = 0;
    proof {
        assert(a@.take(0) =~= Seq::<u64>::empty());
        assert(0nat * (m as nat) == 0) by (nonlinear_arith);
        lemma2_to64();
    }
    while i < n
        invariant
            i <= n,
            n == a@.len(),
            out@.len() == i,
            limb_val(out@) + (carry as nat) * pow2((64 * i) as nat) == limb_val(a@.take(i as int))
                * (m as nat),
        decreases n - i,
    {
        proof {
            assert((a@[i as int] as nat) * (m as nat) <= 0xffffffffffffffff * 0xffffffffffffffff)
                by (nonlinear_arith)
                requires
                    a@[i as int] <= 0xffffffffffffffffu64,
                    m <= 0xffffffffffffffffu64,
            ;
        }
        let s: u128 = (a[i] as u128) * (m as u128) + (carry as u128);
        let low: u64 = (s % 0x10000000000000000) as u64;
        let high: u64 = (s / 0x10000000000000000) as u64;
        proof {
            let p = pow2((64 * i) as nat);
            lemma_limb_val_take_succ(a@, i as int);
            lemma_limb_val_push(out@, low);
            lemma_pow2_adds((64 * i) as nat, 64);
            assert((64 * (i + 1)) as nat == (64 * i) as nat + 64);
            lemma2_to64();
            assert(pow2((64 * (i + 1)) as nat) == p * 0x10000000000000000);
            assert((s as nat) == (a@[i as int] as nat) * (m as nat) + (carry as nat));
            assert((low as nat) + 0x10000000000000000 * (high as nat) == s as nat);
            lemma_carry_step(
                limb_val(out@),
                carry as nat,
                (a@[i as int] as nat) * (m as nat),
                low as nat,
                high as nat,
                p,
            );
            assert((limb_val(a@.take(i as int)) + (a@[i as int] as nat) * p) * (m as nat)
                == limb_val(a@.take(i as int)) * (m as nat) + ((a@[i as int] as nat) * (m as nat))
                * p) by (nonlinear_arith);
        }
        out.push(low);
        carry = high;
        i = i + 1;
    }
    proof {
        assert(a@.take(n as int) =~= a@);
        lemma_limb_val_push(out@, carry);
    }
    out.push(carry);
    out
}

pub proof fn lemma_val_mul_bound(a: Seq<u64>, b: Seq<u64>)
    ensures
        limb_val(a) * limb_val(b) < pow2(64 * (a.len() + b.len())),
{
    lemma_limb_val_bound(a);
    lemma_limb_val_bound(b);
    lemma_pow2_adds(64 * a.len(), 64 * b.len());
    lemma_pow2_pos(64 * a.len());
    lemma_pow2_pos(64 * b.len());
    assert(64 * (a.len() + b.len()) == 64 * a.len() + 64 * b.len());
    assert(limb_val(a) * limb_val(b) < pow2(64 * a.len()) * pow2(64 * b.len()))
        by (nonlinear_arith)
        requires
            limb_val(a) < pow2(64 * a.len()),
            limb_val(b) < pow2(64 * b.len()),
            pow2(64 * a.len()) > 0,
            pow2(64 * b.len()) > 0,
    ;
}

pub proof fn lemma_val_take_le(s: Seq<u64>, k: int)
    requires
        0 <= k <= s.len(),
    ensures
        limb_val(s.take(k)) <= limb_val(s),
{
    lemma_limb_val_split(s, k);
    lemma_pow2_pos((64 * k) as nat);
    assert(limb_val(s.skip(k)) * pow2((64 * k) as nat) >= 0) by (nonlinear_arith);
}

/// Exact full-width multiplication.
pub fn limbs_mul(a: &Vec<u64>, b: &Vec<u64>) -> (r: Vec<u64>)
    requires
        a@.len() >= 1,
        b@.len() >= 1,
        a@.len() + b@.len() <= usize::MAX,
    ensures
        r@.len() == a@.len() + b@.len(),
        limb_val(r@) == limb_val(a@) * limb_val(b@),
{
    let la: usize = a.len();
    let lb: usize = b.len();
    let width: usize = la + lb;
    let mut acc: Vec<u64> = limbs_zero(width);
    let mut i: usize = 0;
    proof {
        assert(b@.take(0) =~= Seq::<u64>::empty());
        assert(limb_val(a@) * 0 == 0) by (nonlinear_arith);
    }
    while i < lb
        invariant
            i <= lb,
            la == a@.len(),
            lb == b@.len(),
            width == la + lb,
            acc@.len() == width,
            limb_val(acc@) == limb_val(a@) * limb_val(b@.take(i as int)),
        decreases lb - i,
    {
        let part = limbs_mul_limb(a, b[i]);
        let shifted = limbs_shift_up(&part, i);
        let padded = limbs_pad(&shifted, width);
        proof {
            lemma_limb_val_take_succ(b@, i as int);
            let p = pow2((64 * i) as nat);
            // value of the new term
            assert(limb_val(padded@) == (limb_val(a@) * (b@[i as int] as nat)) * p);
            // sum fits
            lemma_val_take_le(b@, i + 1);
            lemma_val_mul_bound(a@, b@);
            assert(limb_val(a@) * limb_val(b@.take(i as int)) + (limb_val(a@) * (
            b@[i as int] as nat)) * p == limb_val(a@) * (limb_val(b@.take(i as int)) + (
            b@[i as int] as nat) * p)) by (nonlinear_arith);
            assert(limb_val(a@) * limb_val(b@.take(i + 1)) <= limb_val(a@) * limb_val(b@))
                by (nonlinear_arith)
                requires
                    limb_val(b@.take(i + 1)) <= limb_val(b@),
                    limb_val(a@) >= 0,
            ;
        }
        acc = limbs_add_exact(&acc, &padded);
        i = i + 1;
    }
    proof {
        assert(b@.take(lb as int) =~= b@);
    }
    acc
}

/// A vector of `len` limbs whose value is `2^i`.
pub fn limbs_pow2(len: usize, i: usize) -> (r: Vec<u64>)
    requires
        i < 64 * len,
    ensures
        r@.len() == len,
        limb_val(r@) == pow2(i as nat),
{
    let w: usize = i / 64;
    let t: usize = i % 64;
    proof {
        assert(w < len) by (nonlinear_arith)
            requires
                i < 64 * len,
                w == i / 64,
        ;
        assert(t < 64) by (nonlinear_arith)
            requires
                t == i % 64,
        ;
    }
    let limb: u64 = 1u64 << (t as u64);
    proof {
        lemma_u64_pow2_no_overflow(t as nat);
        lemma_u64_shl_is_mul(1u64, t as u64);
    }
    let mut r: Vec<u64> = Vec::new();
    let mut j: usize = 0;
    while j < len
        invariant
            j <= len,
            r@.len() == j,
            w < len,
            limb == pow2(t as nat),
            forall|x: int| 0 <= x < j ==> r@[x] == (if x == w { limb } else { 0u64 }),
        decreases len - j,
    {
        if j == w {
            r.push(limb);
        } else {
            r.push(0);
        }
        j = j + 1;
    }
    proof {
        lemma_limb_val_split(r@, w as int);
        lemma_limb_val_zero_iff(r@.take(w as int));
        assert(forall|x: int| 0 <= x < w ==> #[trigger] r@.take(w as int)[x] == 0);
        assert(limb_val(r@.take(w as int)) == 0);
        // r.skip(w) = [limb, 0, 0, ...]
        let sk = r@.skip(w as int);
        assert(sk[0] == limb);
        lemma_limb_val_zero_iff(sk.skip(1));
        assert(forall|x: int| 0 <= x < sk.skip(1).len() ==> #[trigger] sk.skip(1)[x] == r@[x + w
            + 1]);
        assert(limb_val(sk.skip(1)) == 0);
        assert(limb_val(sk) == limb as nat);
        lemma_pow2_adds(t as nat, (64 * w) as nat);
        lemma_fundamental_div_mod(i as int, 64);
        assert((i as nat) == (t as nat) + (64 * w) as nat);
        assert(limb_val(r@) == 0 + (limb as nat) * pow2((64 * w) as nat));
    }
    r
}

/// Double the value and add a carry-in bit.
pub fn limbs_shl1_bit(a: &Vec<u64>, bit: u64) -> (r: Vec<u64>)
    requires
        bit <= 1,
        2 * limb_val(a@) + bit < pow2(64 * a@.len()),
    ensures
        r@.len() == a@.len(),
        limb_val(r@) == 2 * limb_val(a@) + bit,
{
    let n: usize = a.len();
    let mut out: Vec<u64> = Vec::new();
    let mut carry: u64 = bit;
    let mut i: usize = 0;
    proof {
        assert(a@.take(0) =~= Seq::<u64>::empty());
        lemma2_to64();
        assert(pow2(0) == 1);
        assert((bit as nat) * 1 == bit as nat) by (nonlinear_arith);
    }
    while i < n
        invariant
            i <= n,
            n == a@.len(),
            bit <= 1,
            carry <= 1,
            out@.len() == i,
            limb_val(out@) + (carry as nat) * pow2((64 * i) as nat) == 2 * limb_val(
                a@.take(i as int),
            ) + bit,
        decreases n - i,
    {
        let x: u64 = a[i];
        let cin: u64 = carry;
        let low: u64 = (x << 1u64) | cin;
        let cout: u64 = x >> 63u64;
        proof {
            assert((low as u128) + 0x10000000000000000u128 * (cout as u128) == 2 * (x as u128) + (
            cin as u128) && cout <= 1) by (bit_vector)
                requires
                    low == (x << 1u64) | cin,
                    cout == x >> 63u64,
                    cin <= 1,
            ;
            assert((low as nat) + 0x10000000000000000 * (cout as nat) == 2 * (x as nat) + (
            cin as nat));
            let p = pow2((64 * i) as nat);
            lemma_limb_val_take_succ(a@, i as int);
            lemma_limb_val_push(out@, low);
            lemma_pow2_adds((64 * i) as nat, 64);
            assert((64 * (i + 1)) as nat == (64 * i) as nat + 64);
            lemma2_to64();
            assert(pow2((64 * (i + 1)) as nat) == p * 0x10000000000000000);
            lemma_carry_step(
                limb_val(out@),
                cin as nat,
                2 * (x as nat),
                low as nat,
                cout as nat,
                p,
            );
            assert((limb_val(a@.take(i as int)) + (x as nat) * p) * 2 == 2 * limb_val(
                a@.take(i as int),
            ) + (2 * (x as nat)) * p) by (nonlinear_arith);
        }
        out.push(low);
        carry = cout;
        i = i + 1;
    }
    proof {
        assert(a@.take(n as int) =~= a@);
        if carry == 1 {
            lemma_pow2_pos((64 * n) as nat);
            assert((1nat) * pow2((64 * n) as nat) == pow2((64 * n) as nat)) by (nonlinear_arith);
            lemma_limb_val_bound(out@);
            assert(false);
        }
        assert((0nat) * pow2((64 * n) as nat) == 0) by (nonlinear_arith);
    }
    out
}

spec fn div_inner_p(s: Seq<u64>, w: int, t: nat) -> nat {
    if t >= 64 {
        limb_val(s.skip(w + 1))
    } else {
        limb_val(s.skip(w + 1)) * pow2((64 - t) as nat) + ((s[w] >> (t as u64)) as nat)
    }
}

/// Long division: quotient and remainder with exact contracts.
pub fn limbs_div_rem(a: &Vec<u64>, b: &Vec<u64>) -> (r: (Vec<u64>, Vec<u64>))
    requires
        a@.len() >= 1,
        b@.len() >= 1,
        b@.len() + 1 <= usize::MAX,
        limb_val(b@) > 0,
    ensures
        r.0@.len() == a@.len(),
        r.1@.len() == b@.len(),
        limb_val(r.0@) * limb_val(b@) + limb_val(r.1@) == limb_val(a@),
        limb_val(r.1@) < limb_val(b@),
        limb_val(r.0@) == limb_val(a@) / limb_val(b@),
        limb_val(r.1@) == limb_val(a@) % limb_val(b@),
{
    let n: usize = a.len();
    let m: usize = b.len();
    let bb = limbs_pad(b, m + 1);
    let mut q: Vec<u64> = limbs_zero(n);
    let mut rr: Vec<u64> = limbs_zero(m + 1);
    let mut w: usize = n;
    let ghost mut bits_done: nat = 0nat;
    proof {
        assert(a@.skip(n as int) =~= Seq::<u64>::empty());
        assert(0nat * limb_val(b@) == 0) by (nonlinear_arith);
        lemma2_to64();
    }
    while w > 0
        invariant
            w <= n,
            n == a@.len(),
            m == b@.len(),
            limb_val(b@) > 0,
            bb@.len() == m + 1,
            limb_val(bb@) == limb_val(b@),
            q@.len() == n,
            rr@.len() == m + 1,
            limb_val(q@) * limb_val(b@) + limb_val(rr@) == limb_val(a@.skip(w as int)),
            limb_val(rr@) < limb_val(b@),
            bits_done == 64 * (n - w),
            limb_val(a@.skip(w as int)) < pow2(bits_done),
        decreases w,
    {
        w = w - 1;
        let x: u64 = a[w];
        let mut t: usize = 64;
        proof {
            lemma_limb_val_bound(a@.skip(w as int));
            assert(a@.skip(w as int).len() == n - w);
        }
        while t > 0
            invariant
                t <= 64,
                w < n,
                n == a@.len(),
                m == b@.len(),
                x == a@[w as int],
                limb_val(b@) > 0,
                bb@.len() == m + 1,
                limb_val(bb@) == limb_val(b@),
                q@.len() == n,
                rr@.len() == m + 1,
                limb_val(q@) * limb_val(b@) + limb_val(rr@) == div_inner_p(a@, w as int, t as nat),
                limb_val(rr@) < limb_val(b@),
                bits_done == 64 * (n - w - 1) + (64 - t),
                div_inner_p(a@, w as int, t as nat) < pow2(bits_done),
                bits_done <= 64 * n,
            decreases t,
        {
            t = t - 1;
            let tu: u64 = t as u64;
            let bit: u64 = (x >> tu) & 1;
            let ghost old_p = div_inner_p(a@, w as int, (t + 1) as nat);
            proof {
                let s_hi = limb_val(a@.skip(w + 1));
                assert(bit <= 1) by (bit_vector)
                    requires
                        bit == (x >> tu) & 1,
                ;
                // transition: div_inner_p(t) == 2 * div_inner_p(t+1) + bit
                lemma2_to64();
                if t == 63 {
                    assert(x >> 63u64 == (x >> 63u64) & 1) by (bit_vector);
                    assert(pow2(1) == 2);
                    assert(s_hi * 2 == 2 * s_hi) by (nonlinear_arith);
                } else {
                    assert((x >> tu) as u128 == 2 * ((x >> (tu + 1)) as u128) + (((x >> tu)
                        & 1) as u128)) by (bit_vector)
                        requires
                            tu < 63,
                    ;
                    assert((x >> tu) as nat == 2 * ((x >> (tu + 1)) as nat) + (((x >> tu)
                        & 1) as nat));
                    assert((x >> ((t + 1) as u64)) == (x >> (tu + 1)));
                    lemma_pow2_adds((63 - t) as nat, 1);
                    assert(pow2(1) == 2);
                    assert(s_hi * pow2((64 - t) as nat) == 2 * (s_hi * pow2((63 - t) as nat)))
                        by (nonlinear_arith)
                        requires
                            pow2((64 - t) as nat) == pow2((63 - t) as nat) * 2,
                    ;
                }
                assert(div_inner_p(a@, w as int, t as nat) == 2 * old_p + bit);
                // bound for the new p
                assert(2 * old_p + bit < 2 * pow2(bits_done)) ;
                lemma_pow2_adds(bits_done, 1);
                assert(pow2(bits_done + 1) == pow2(bits_done) * 2);
                // shl1 preconditions
                lemma_limb_val_bound(b@);
                lemma_pow2_strictly_increases((64 * m) as nat, (64 * (m + 1)) as nat);
                assert(2 * limb_val(rr@) + bit < 2 * limb_val(b@));
                assert(2 * limb_val(b@) <= 2 * pow2((64 * m) as nat));
                lemma_pow2_adds((64 * m) as nat, 1);
                assert(2 * limb_val(rr@) + bit < pow2((64 * (m + 1)) as nat)) by {
                    assert(pow2((64 * m) as nat) * 2 == 2 * pow2((64 * m) as nat))
                        by (nonlinear_arith);
                    lemma_pow2_strictly_increases(((64 * m) + 1) as nat, (64 * (m + 1)) as nat);
                };
            }
            let r2 = limbs_shl1_bit(&rr, bit);
            let qbit: u64 = if limbs_lt(&r2, &bb) {
                0
            } else {
                1
            };
            let r3 = if qbit == 1 {
                limbs_sub_exact(&r2, &bb)
            } else {
                r2
            };
            proof {
                // q shift bound: 2*q + qbit <= 2*p_old + bit < pow2(bits_done+1) <= pow2(64n)
                assert(limb_val(q@) * limb_val(b@) >= limb_val(q@)) by (nonlinear_arith)
                    requires
                        limb_val(b@) >= 1,
                        limb_val(q@) >= 0,
                ;
                assert(2 * limb_val(q@) + qbit <= 2 * old_p + 1);
                assert(bits_done + 1 <= 64 * n);
                if bits_done + 1 < 64 * n {
                    lemma_pow2_strictly_increases(bits_done + 1, (64 * n) as nat);
                }
                assert(2 * limb_val(q@) + qbit < pow2((64 * n) as nat));
            }
            let q2 = limbs_shl1_bit(&q, qbit);
            proof {
                // re-establish the division invariant
                assert(limb_val(q2@) * limb_val(b@) == 2 * (limb_val(q@) * limb_val(b@)) + (
                qbit as nat) * limb_val(b@)) by (nonlinear_arith)
                    requires
                        limb_val(q2@) == 2 * limb_val(q@) + qbit,
                ;
                assert(limb_val(q2@) * limb_val(b@) + limb_val(r3@) == 2 * old_p + bit);
                bits_done = bits_done + 1;
            }
            q = q2;
            rr = r3;
        }
        proof {
            // at t == 0 the inner value equals the value of a.skip(w)
            let sk = a@.skip(w as int);
            assert(sk[0] == a@[w as int]);
            assert(sk.skip(1) =~= a@.skip(w + 1));
            assert((x >> 0u64) as nat == x as nat) by (bit_vector);
            lemma2_to64();
            assert(pow2(64) == 0x10000000000000000);
            assert(limb_val(sk) == (x as nat) + 0x10000000000000000 * limb_val(a@.skip(w + 1)));
            assert(limb_val(a@.skip(w + 1)) * pow2(64) == 0x10000000000000000 * limb_val(
                a@.skip(w + 1),
            )) by (nonlinear_arith)
                requires
                    pow2(64) == 0x10000000000000000,
            ;
            assert(div_inner_p(a@, w as int, 0) == limb_val(sk));
        }
    }
    proof {
        assert(a@.skip(0) =~= a@);
        lemma_limb_val_bound(b@);
    }
    let rem = limbs_truncate(&rr, m);
    proof {
        lemma_fundamental_div_mod_converse(
            limb_val(a@) as int,
            limb_val(b@) as int,
            limb_val(q@) as int,
            limb_val(rem@) as int,
        );
    }
    (q, rem)
}

/// `r` is the floor cube root of `v`.
pub open spec fn is_nat_icbrt(r: nat, v: nat) -> bool {
    r * r * r <= v && v < (r + 1) * (r + 1) * (r + 1)
}

/// Floor cube root of a natural number.
pub open spec fn nat_icbrt(v: nat) -> nat {
    choose|r: nat| is_nat_icbrt(r, v)
}

pub proof fn lemma_nat_icbrt_is(v: nat, r: nat)
    requires
        r * r * r <= v,
        v < (r + 1) * (r + 1) * (r + 1),
    ensures
        nat_icbrt(v) == r,
{
    assert(is_nat_icbrt(r, v));
    let x = choose|x: nat| is_nat_icbrt(x, v);
    assert(is_nat_icbrt(x, v));
    assert(x == r) by (nonlinear_arith)
        requires
            x * x * x <= v,
            v < (x + 1) * (x + 1) * (x + 1),
            r * r * r <= v,
            v < (r + 1) * (r + 1) * (r + 1),
    ;
}

/// Floor integer cube root.
pub fn limbs_icbrt(a: &Vec<u64>) -> (r: Vec<u64>)
    requires
        a@.len() >= 1,
        64 * a@.len() <= usize::MAX,
    ensures
        r@.len() == a@.len(),
        limb_val(r@) * limb_val(r@) * limb_val(r@) <= limb_val(a@),
        limb_val(a@) < (limb_val(r@) + 1) * (limb_val(r@) + 1) * (limb_val(r@) + 1),
{
    let n: usize = a.len();
    let target = limbs_pad(a, 3 * n);
    let mut r: Vec<u64> = limbs_zero(n);
    let mut i: usize = 22 * n;
    proof {
        lemma_limb_val_bound(a@);
        // a < 2^(64n) <= 2^(66n) == (2^(22n))^3
        lemma_pow2_adds((22 * n) as nat, (22 * n) as nat);
        lemma_pow2_adds((44 * n) as nat, (22 * n) as nat);
        if ((64 * n) as nat) < ((66 * n) as nat) {
            lemma_pow2_strictly_increases((64 * n) as nat, (66 * n) as nat);
        }
        assert((0nat + pow2((22 * n) as nat)) * (0nat + pow2((22 * n) as nat)) * (0nat + pow2(
            (22 * n) as nat,
        )) == pow2((44 * n) as nat) * pow2((22 * n) as nat)) by (nonlinear_arith)
            requires
                pow2((44 * n) as nat) == pow2((22 * n) as nat) * pow2((22 * n) as nat),
        ;
    }
    while i > 0
        invariant
            i <= 22 * n,
            n == a@.len(),
            64 * n <= usize::MAX,
            target@.len() == 3 * n,
            limb_val(target@) == limb_val(a@),
            r@.len() == n,
            limb_val(r@) * limb_val(r@) * limb_val(r@) <= limb_val(a@),
            limb_val(a@) < (limb_val(r@) + pow2(i as nat)) * (limb_val(r@) + pow2(i as nat)) * (
            limb_val(r@) + pow2(i as nat)),
        decreases i,
    {
        i = i - 1;
        let p = limbs_pow2(n, i);
        proof {
            lemma_pow2_pos(i as nat);
            lemma_pow2_pos((22 * n) as nat);
            lemma_pow2_adds((22 * n) as nat, (22 * n) as nat);
            lemma_pow2_adds((44 * n) as nat, (22 * n) as nat);
            lemma_limb_val_bound(a@);
            if ((64 * n) as nat) < ((66 * n) as nat) {
                lemma_pow2_strictly_increases((64 * n) as nat, (66 * n) as nat);
            }
            assert(limb_val(r@) < pow2((22 * n) as nat)) by (nonlinear_arith)
                requires
                    limb_val(r@) * limb_val(r@) * limb_val(r@) <= limb_val(a@),
                    limb_val(a@) < pow2((66 * n) as nat),
                    pow2((66 * n) as nat) == pow2((44 * n) as nat) * pow2((22 * n) as nat),
                    pow2((44 * n) as nat) == pow2((22 * n) as nat) * pow2((22 * n) as nat),
                    pow2((22 * n) as nat) > 0,
            ;
            assert(i as nat <= (22 * n - 1) as nat);
            if (i as nat) < ((22 * n) as nat) {
                lemma_pow2_strictly_increases(i as nat, (22 * n) as nat);
            }
            lemma_pow2_adds((22 * n) as nat, 1);
            lemma2_to64();
            assert(pow2(((22 * n) + 1) as nat) == pow2((22 * n) as nat) * 2);
            if ((22 * n + 1) as nat) < ((64 * n) as nat) {
                lemma_pow2_strictly_increases((22 * n + 1) as nat, (64 * n) as nat);
            }
            assert(limb_val(r@) + pow2(i as nat) < pow2((64 * n) as nat));
        }
        let cand = limbs_add_exact(&r, &p);
        let sq = limbs_mul(&cand, &cand);
        let cube = limbs_mul(&sq, &cand);
        let keep = !limbs_lt(&target, &cube);
        proof {
            lemma_pow2_adds(i as nat, 1);
            lemma2_to64();
            assert(pow2((i + 1) as nat) == pow2(i as nat) * 2);
        }
        if keep {
            r = cand;
        }
    }
    proof {
        lemma2_to64();
        assert(pow2(0) == 1);
    }
    r
}

/// Floor integer square root.
pub fn limbs_isqrt(a: &Vec<u64>) -> (r: Vec<u64>)
    requires
        a@.len() >= 1,
        64 * a@.len() <= usize::MAX,
    ensures
        r@.len() == a@.len(),
        limb_val(r@) * limb_val(r@) <= limb_val(a@),
        limb_val(a@) < (limb_val(r@) + 1) * (limb_val(r@) + 1),
{
    let n: usize = a.len();
    let target = limbs_pad(a, 2 * n);
    let mut r: Vec<u64> = limbs_zero(n);
    let mut i: usize = 32 * n;
    proof {
        lemma_limb_val_bound(a@);
        // a < pow2(64n) == pow2(32n) * pow2(32n) == (0 + 2^(32n))^2
        lemma_pow2_adds((32 * n) as nat, (32 * n) as nat);
        assert((64 * n) as nat == (32 * n) as nat + (32 * n) as nat);
        assert((0nat + pow2((32 * n) as nat)) * (0nat + pow2((32 * n) as nat)) == pow2(
            (32 * n) as nat,
        ) * pow2((32 * n) as nat)) by (nonlinear_arith);
    }
    while i > 0
        invariant
            i <= 32 * n,
            n == a@.len(),
            64 * n <= usize::MAX,
            target@.len() == 2 * n,
            limb_val(target@) == limb_val(a@),
            r@.len() == n,
            limb_val(r@) * limb_val(r@) <= limb_val(a@),
            limb_val(a@) < (limb_val(r@) + pow2(i as nat)) * (limb_val(r@) + pow2(i as nat)),
        decreases i,
    {
        i = i - 1;
        let p = limbs_pow2(n, i);
        proof {
            // r < 2^(32n) since r^2 <= a < 2^(32n) * 2^(32n)
            lemma_pow2_pos(i as nat);
            lemma_pow2_pos((32 * n) as nat);
            lemma_pow2_adds((32 * n) as nat, (32 * n) as nat);
            assert((64 * n) as nat == (32 * n) as nat + (32 * n) as nat);
            lemma_limb_val_bound(a@);
            assert(limb_val(r@) < pow2((32 * n) as nat)) by (nonlinear_arith)
                requires
                    limb_val(r@) * limb_val(r@) <= limb_val(a@),
                    limb_val(a@) < pow2((32 * n) as nat) * pow2((32 * n) as nat),
                    pow2((32 * n) as nat) > 0,
            ;
            // 2^i <= 2^(32n - 1), so r + 2^i < 2^(32n + 1) <= 2^(64n)
            assert(i as nat <= (32 * n - 1) as nat);
            if (i as nat) < (32 * n) as nat {
                lemma_pow2_strictly_increases(i as nat, (32 * n) as nat);
            }
            lemma_pow2_adds((32 * n) as nat, 1);
            lemma2_to64();
            assert(pow2(((32 * n) + 1) as nat) == pow2((32 * n) as nat) * 2);
            if ((32 * n + 1) as nat) < ((64 * n) as nat) {
                lemma_pow2_strictly_increases((32 * n + 1) as nat, (64 * n) as nat);
            }
            assert(limb_val(r@) + pow2(i as nat) < pow2((64 * n) as nat));
        }
        let cand = limbs_add_exact(&r, &p);
        let sq = limbs_mul(&cand, &cand);
        let keep = !limbs_lt(&target, &sq);
        proof {
            lemma_pow2_adds(i as nat, 1);
            lemma2_to64();
            assert(pow2((i + 1) as nat) == pow2(i as nat) * 2);
        }
        if keep {
            r = cand;
        }
    }
    proof {
        lemma2_to64();
        assert(pow2(0) == 1);
    }
    r
}

} // verus!
