//! The discretised price grid.
//!
//! A [`Tick`] is an integer index on the price grid; the spot square-root
//! price of tick `t` is `base^t` where `base = sqrt(1.0001)`, held here in
//! 128-bit fixed point.  The price of a tick is computed as a product of
//! precomputed factors `base^(2^k)`, one per binary digit of `|t|`, exactly
//! as [`spec_price_mag`] states.  An [`EffTick`] lives on a slightly wider
//! grid and represents an effective (fee-adjusted) price.

use vstd::prelude::*;
use vstd::arithmetic::power2::*;
use vstd::arithmetic::div_mod::{lemma_div_is_ordered, lemma_div_by_multiple,
    lemma_div_is_ordered_by_denominator};
use vstd::arithmetic::mul::lemma_mul_inequality;

use crate::errors::ErrorKind;
use crate::util_types::Side;
use crate::fp::u128x128::U128X128;
use crate::limbs::{limb_val, lemma_limb_val_push};

verus! {

/// Greatest valid tick index.
pub const MAX_TICK: i32 = 887273;

/// Least valid tick index.
pub const MIN_TICK: i32 = -887273;

/// Number of parallel fee levels of a pool.
pub const NUM_FEE_LEVELS: u8 = 8;

/// Greatest valid effective-tick index: fee shifts extend the grid by
/// `2^(NUM_FEE_LEVELS - 1)` in each direction.
pub const MAX_EFF_TICK: i32 = MAX_TICK + 128;

/// Least valid effective-tick index.
pub const MIN_EFF_TICK: i32 = MIN_TICK - 128;

/// `base^(2^k)` in 128-bit fixed point, `base = sqrt(1.0001)`.
pub open spec fn spec_tick_factor(k: int) -> nat {
    if k == 0 {
        0x1000346d6ff11672ae55ad00f5c38565cnat
    } else if k == 1 {
        0x100068db8bac710cb295e9e1b089a0274nat
    } else if k == 2 {
        0x1000d1b9c68abe5f76b30fb7581b74fb5nat
    } else if k == 3 {
        0x1001a37e4a234cb0830516e519450a13fnat
    } else if k == 4 {
        0x100347278ab0e92ada25ab46019279f81nat
    } else if k == 5 {
        0x10068efb00a525480a5d7fdc2ccf59972nat
    } else if k == 6 {
        0x100d20a63b4173839df9daaa568442caanat
    } else if k == 7 {
        0x101a4c11c742dd7729738df5e96639678nat
    } else if k == 8 {
        0x1034c35c31f64cfa6dc0d6de43d0880e1nat
    } else if k == 9 {
        0x106a34b78c8aaffbf81bed5a32b0fcc89nat
    } else if k == 10 {
        0x10d72a6a46ccd8bce9ae771b16294a3fanat
    } else if k == 11 {
        0x11b9a258e63928596dc757faa331545abnat
    } else if k == 12 {
        0x13a2e2bda04f8379f3cd17be5c343c1f1nat
    } else if k == 13 {
        0x181954be69e0da8fe77f2ab42e87cc7f4nat
    } else if k == 14 {
        0x244c2655d185a0290802528770905978cnat
    } else if k == 15 {
        0x525816eeb9f935b1c616779e807dffc0enat
    } else if k == 16 {
        0x1a7c8d00b551684ff4d31ae065019f5490nat
    } else if k == 17 {
        0x2bd893d0b2df7c97884590c66cddeb02bc6nat
    } else if k == 18 {
        0x78278e1e19e448cf8b95d2152dcb322dc5a70nat
    } else if k == 19 {
        0x38651b58d457501416feade319387b6601c646737cnat
    } else if k == 20 {
        0xc6c63e573e99b8b10f5961ae4ca110e58cb0f0bc5ddc0e31509nat
    } else {
        0
    }
}

/// Upper bound of the price accumulator before step `k`: the product of all
/// factors below `k`, i.e. the raw price of tick `2^k - 1`.
pub open spec fn spec_acc_bound(k: int) -> nat {
    if k == 0 {
        0x100000000000000000000000000000000nat
    } else if k == 1 {
        0x1000346d6ff11672ae55ad00f5c38565cnat
    } else if k == 2 {
        0x10009d4a533442b66e189a4eb5124fd46nat
    } else if k == 3 {
        0x10016f0c277c2b1e4eaf76106f56e75a6nat
    } else if k == 4 {
        0x100312b008fee64b6d316e26f75b4b586nat
    } else if k == 5 {
        0x10065a78bf36d76b27138c391a992fc99nat
    } else if k == 6 {
        0x100cec0e73beda1628d06bf140cf1f683nat
    } else if k == 7 {
        0x101a174ed91c316b19888f5ababa92f3fnat
    } else if k == 8 {
        0x10348e428c3416ad1f871aaa86b33e73cnat
    } else if k == 9 {
        0x1069feeecb13350626ad4efa85004bbaenat
    } else if k == 10 {
        0x10d6f33c821e30e0959a39d86f60641f9nat
    } else if k == 11 {
        0x11b968451840ede14bd1aa3d71daf0f1fnat
    } else if k == 12 {
        0x13a2a266c32f092bf3994d8a39fa663c2nat
    } else if k == 13 {
        0x181905c84405e659c172f2cf01386a97enat
    } else if k == 14 {
        0x244baf6795ea0f762b0572a724d54d163nat
    } else if k == 15 {
        0x52570920ab4c5898b3bb6a57dd7ae5479nat
    } else if k == 16 {
        0x1a7c3637dd9daf3cddffb53f28a5ac88a9nat
    } else if k == 17 {
        0x2bd80426c305faa4c994a6fbd8861ec9e2anat
    } else if k == 18 {
        0x7826046cbfea90533d04326624704a84e2bcfnat
    } else if k == 19 {
        0x38646290dd96e20c43eb4ce79b2e4c0f779c6d9dc4nat
    } else if k == 20 {
        0xc6c3b30bb4df48635d93872b81d03d1967823982f358da198adnat
    } else {
        0
    }
}

/// Folds the factor product over the binary digits of `mag`, starting at
/// digit `k` with accumulator `acc` (raw, 128 fractional bits).
pub open spec fn spec_price_fold(mag: nat, k: nat, acc: nat) -> nat
    decreases 20 - k,
{
    if k >= 20 {
        acc
    } else {
        let acc2 = if (mag / pow2(k)) % 2 == 1 {
            (acc * spec_tick_factor(k as int)) / pow2(128)
        } else {
            acc
        };
        spec_price_fold(mag, k + 1, acc2)
    }
}

/// Raw spot square-root price of the non-negative tick `mag`.
pub open spec fn spec_price_mag(mag: nat) -> nat {
    spec_price_fold(mag, 0, pow2(128))
}

/// Raw spot square-root price of a (possibly negative) tick index.
pub open spec fn spec_spot_sqrtprice(t: int) -> nat {
    if t >= 0 {
        spec_price_mag(t as nat)
    } else {
        (pow2(128) * pow2(128)) / spec_price_mag((-t) as nat)
    }
}


proof fn lemma_acc_bound_step(k: int)
    requires
        0 <= k < 20,
    ensures
        (spec_acc_bound(k) * spec_tick_factor(k)) / pow2(128) == spec_acc_bound(k + 1),
        pow2(128) <= spec_tick_factor(k),
        spec_acc_bound(k) <= spec_acc_bound(k + 1),
        spec_acc_bound(k + 1) < pow2(128) * pow2(128),
        pow2(128) <= spec_acc_bound(k),
{
    lemma2_to64();
    lemma_pow2_adds(64, 64);
    assert(pow2(128) == 0x100000000000000000000000000000000nat);
    if k == 0 {
        assert(spec_acc_bound(0) * spec_tick_factor(0) == 0x1000346d6ff11672ae55ad00f5c38565c00000000000000000000000000000000nat);
        assert(0x1000346d6ff11672ae55ad00f5c38565c00000000000000000000000000000000nat / 0x100000000000000000000000000000000nat == 0x1000346d6ff11672ae55ad00f5c38565cnat);
    } else if k == 1 {
        assert(spec_acc_bound(1) * spec_tick_factor(1) == 0x10009d4a533442b66e189a4eb5124fd4689822f75d5a66e5e37eb85f90d8bd9b0nat);
        assert(0x10009d4a533442b66e189a4eb5124fd4689822f75d5a66e5e37eb85f90d8bd9b0nat / 0x100000000000000000000000000000000nat == 0x10009d4a533442b66e189a4eb5124fd46nat);
    } else if k == 2 {
        assert(spec_acc_bound(2) * spec_tick_factor(2) == 0x10016f0c277c2b1e4eaf76106f56e75a66d0d6c00756fc64781ac407a1c59ac7enat);
        assert(0x10016f0c277c2b1e4eaf76106f56e75a66d0d6c00756fc64781ac407a1c59ac7enat / 0x100000000000000000000000000000000nat == 0x10016f0c277c2b1e4eaf76106f56e75a6nat);
    } else if k == 3 {
        assert(spec_acc_bound(3) * spec_tick_factor(3) == 0x100312b008fee64b6d316e26f75b4b586c281a949b3d08e5d36fd5d1f9a0c59danat);
        assert(0x100312b008fee64b6d316e26f75b4b586c281a949b3d08e5d36fd5d1f9a0c59danat / 0x100000000000000000000000000000000nat == 0x100312b008fee64b6d316e26f75b4b586nat);
    } else if k == 4 {
        assert(spec_acc_bound(4) * spec_tick_factor(4) == 0x10065a78bf36d76b27138c391a992fc99fdc6ba8c3795ce58c72732c74a37b286nat);
        assert(0x10065a78bf36d76b27138c391a992fc99fdc6ba8c3795ce58c72732c74a37b286nat / 0x100000000000000000000000000000000nat == 0x10065a78bf36d76b27138c391a992fc99nat);
    } else if k == 5 {
        assert(spec_acc_bound(5) * spec_tick_factor(5) == 0x100cec0e73beda1628d06bf140cf1f6832649909b8cfde9061c37311e06d8ed22nat);
        assert(0x100cec0e73beda1628d06bf140cf1f6832649909b8cfde9061c37311e06d8ed22nat / 0x100000000000000000000000000000000nat == 0x100cec0e73beda1628d06bf140cf1f683nat);
    } else if k == 6 {
        assert(spec_acc_bound(6) * spec_tick_factor(6) == 0x101a174ed91c316b19888f5ababa92f3f50b3cc50a36308ea06e5f263e1d836fenat);
        assert(0x101a174ed91c316b19888f5ababa92f3f50b3cc50a36308ea06e5f263e1d836fenat / 0x100000000000000000000000000000000nat == 0x101a174ed91c316b19888f5ababa92f3fnat);
    } else if k == 7 {
        assert(spec_acc_bound(7) * spec_tick_factor(7) == 0x10348e428c3416ad1f871aaa86b33e73cba74f41d2afdfa093f2d7d4bc85a0f88nat);
        assert(0x10348e428c3416ad1f871aaa86b33e73cba74f41d2afdfa093f2d7d4bc85a0f88nat / 0x100000000000000000000000000000000nat == 0x10348e428c3416ad1f871aaa86b33e73cnat);
    } else if k == 8 {
        assert(spec_acc_bound(8) * spec_tick_factor(8) == 0x1069feeecb13350626ad4efa85004bbae9e8c000ad54fece289c468c8b21c3bbcnat);
        assert(0x1069feeecb13350626ad4efa85004bbae9e8c000ad54fece289c468c8b21c3bbcnat / 0x100000000000000000000000000000000nat == 0x1069feeecb13350626ad4efa85004bbaenat);
    } else if k == 9 {
        assert(spec_acc_bound(9) * spec_tick_factor(9) == 0x10d6f33c821e30e0959a39d86f60641f972ea6259d27a3a2f078b226dd149181enat);
        assert(0x10d6f33c821e30e0959a39d86f60641f972ea6259d27a3a2f078b226dd149181enat / 0x100000000000000000000000000000000nat == 0x10d6f33c821e30e0959a39d86f60641f9nat);
    } else if k == 10 {
        assert(spec_acc_bound(10) * spec_tick_factor(10) == 0x11b968451840ede14bd1aa3d71daf0f1f288310a22214a7b5a26aeb7ab411f82anat);
        assert(0x11b968451840ede14bd1aa3d71daf0f1f288310a22214a7b5a26aeb7ab411f82anat / 0x100000000000000000000000000000000nat == 0x11b968451840ede14bd1aa3d71daf0f1fnat);
    } else if k == 11 {
        assert(spec_acc_bound(11) * spec_tick_factor(11) == 0x13a2a266c32f092bf3994d8a39fa663c2e3107d6a0f113e63e66f26a66d8d74b5nat);
        assert(0x13a2a266c32f092bf3994d8a39fa663c2e3107d6a0f113e63e66f26a66d8d74b5nat / 0x100000000000000000000000000000000nat == 0x13a2a266c32f092bf3994d8a39fa663c2nat);
    } else if k == 12 {
        assert(spec_acc_bound(12) * spec_tick_factor(12) == 0x181905c84405e659c172f2cf01386a97ebb63dee634f825316d0946789e9f2ba2nat);
        assert(0x181905c84405e659c172f2cf01386a97ebb63dee634f825316d0946789e9f2ba2nat / 0x100000000000000000000000000000000nat == 0x181905c84405e659c172f2cf01386a97enat);
    } else if k == 13 {
        assert(spec_acc_bound(13) * spec_tick_factor(13) == 0x244baf6795ea0f762b0572a724d54d1632ff672c617040668e1ebcf5093227e18nat);
        assert(0x244baf6795ea0f762b0572a724d54d1632ff672c617040668e1ebcf5093227e18nat / 0x100000000000000000000000000000000nat == 0x244baf6795ea0f762b0572a724d54d163nat);
    } else if k == 14 {
        assert(spec_acc_bound(14) * spec_tick_factor(14) == 0x52570920ab4c5898b3bb6a57dd7ae5479397a6797ed8fbd08a91bed28e3d2e724nat);
        assert(0x52570920ab4c5898b3bb6a57dd7ae5479397a6797ed8fbd08a91bed28e3d2e724nat / 0x100000000000000000000000000000000nat == 0x52570920ab4c5898b3bb6a57dd7ae5479nat);
    } else if k == 15 {
        assert(spec_acc_bound(15) * spec_tick_factor(15) == 0x1a7c3637dd9daf3cddffb53f28a5ac88a9402e9409e2ca21645a0251044b16ba9enat);
        assert(0x1a7c3637dd9daf3cddffb53f28a5ac88a9402e9409e2ca21645a0251044b16ba9enat / 0x100000000000000000000000000000000nat == 0x1a7c3637dd9daf3cddffb53f28a5ac88a9nat);
    } else if k == 16 {
        assert(spec_acc_bound(16) * spec_tick_factor(16) == 0x2bd80426c305faa4c994a6fbd8861ec9e2a5d08a4f5672687d632613a9857db5310nat);
        assert(0x2bd80426c305faa4c994a6fbd8861ec9e2a5d08a4f5672687d632613a9857db5310nat / 0x100000000000000000000000000000000nat == 0x2bd80426c305faa4c994a6fbd8861ec9e2anat);
    } else if k == 17 {
        assert(spec_acc_bound(17) * spec_tick_factor(17) == 0x7826046cbfea90533d04326624704a84e2bcfbc237485bb1346359f686765a473627cnat);
        assert(0x7826046cbfea90533d04326624704a84e2bcfbc237485bb1346359f686765a473627cnat / 0x100000000000000000000000000000000nat == 0x7826046cbfea90533d04326624704a84e2bcfnat);
    } else if k == 18 {
        assert(spec_acc_bound(18) * spec_tick_factor(18) == 0x38646290dd96e20c43eb4ce79b2e4c0f779c6d9dc437b1d5864e36e98a91ee3ff1417df090nat);
        assert(0x38646290dd96e20c43eb4ce79b2e4c0f779c6d9dc437b1d5864e36e98a91ee3ff1417df090nat / 0x100000000000000000000000000000000nat == 0x38646290dd96e20c43eb4ce79b2e4c0f779c6d9dc4nat);
    } else if k == 19 {
        assert(spec_acc_bound(19) * spec_tick_factor(19) == 0xc6c3b30bb4df48635d93872b81d03d1967823982f358da198ad5001cd9583bb70d64bf17cf7be8f76f0nat);
        assert(0xc6c3b30bb4df48635d93872b81d03d1967823982f358da198ad5001cd9583bb70d64bf17cf7be8f76f0nat / 0x100000000000000000000000000000000nat == 0xc6c3b30bb4df48635d93872b81d03d1967823982f358da198adnat);
    } else {
    }
}

pub fn u128x128_from_limbs(l0: u64, l1: u64, l2: u64, l3: u64) -> (r: U128X128)
    ensures
        r.wf(),
        r.as_nat() == (l0 as nat) + 0x10000000000000000 * (l1 as nat)
            + 0x100000000000000000000000000000000nat * (l2 as nat)
            + 0x1000000000000000000000000000000000000000000000000nat * (l3 as nat),
{
    let mut limbs: Vec<u64> = Vec::new();
    limbs.push(l0);
    limbs.push(l1);
    limbs.push(l2);
    limbs.push(l3);
    proof {
        let s0 = seq![l0];
        let s1 = seq![l0, l1];
        let s2 = seq![l0, l1, l2];
        assert(limbs@ =~= s2.push(l3));
        assert(s2 =~= s1.push(l2));
        assert(s1 =~= s0.push(l1));
        assert(s0.skip(1) =~= Seq::<u64>::empty());
        assert(limb_val(Seq::<u64>::empty()) == 0);
        assert(limb_val(s0) == (l0 as nat) + 0x10000000000000000 * 0);
        lemma_limb_val_push(s0, l1);
        lemma_limb_val_push(s1, l2);
        lemma_limb_val_push(s2, l3);
        lemma2_to64();
        lemma_pow2_adds(64, 64);
        lemma_pow2_adds(128, 64);
        assert(pow2(64) == 0x10000000000000000);
        assert(pow2(128) == 0x100000000000000000000000000000000);
        assert(pow2(192) == 0x1000000000000000000000000000000000000000000000000nat);
        assert(limb_val(s1) == (l0 as nat) + (l1 as nat) * pow2(64));
        assert(limb_val(s2) == limb_val(s1) + (l2 as nat) * pow2(128));
        assert(limb_val(limbs@) == limb_val(s2) + (l3 as nat) * pow2(192));
        assert((l1 as nat) * pow2(64) == 0x10000000000000000 * (l1 as nat))
            by (nonlinear_arith)
            requires
                pow2(64) == 0x10000000000000000,
        ;
        assert((l2 as nat) * pow2(128) == 0x100000000000000000000000000000000nat * (
        l2 as nat)) by (nonlinear_arith)
            requires
                pow2(128) == 0x100000000000000000000000000000000nat,
        ;
        assert((l3 as nat) * pow2(192)
            == 0x1000000000000000000000000000000000000000000000000nat * (l3 as nat))
            by (nonlinear_arith)
            requires
                pow2(192) == 0x1000000000000000000000000000000000000000000000000nat,
        ;
    }
    U128X128::from_raw(limbs)
}

/// The `k`-th entry of the precomputed factor table.
pub fn tick_factor(k: usize) -> (r: U128X128)
    requires
        k < 21,
    ensures
        r.wf(),
        r.as_nat() == spec_tick_factor(k as int),
{
    match k {
        0 => u128x128_from_limbs(0xe55ad00f5c38565c, 0x346d6ff11672a, 0x1, 0x0),
        1 => u128x128_from_limbs(0x295e9e1b089a0274, 0x68db8bac710cb, 0x1, 0x0),
        2 => u128x128_from_limbs(0x6b30fb7581b74fb5, 0xd1b9c68abe5f7, 0x1, 0x0),
        3 => u128x128_from_limbs(0x30516e519450a13f, 0x1a37e4a234cb08, 0x1, 0x0),
        4 => u128x128_from_limbs(0xa25ab46019279f81, 0x347278ab0e92ad, 0x1, 0x0),
        5 => u128x128_from_limbs(0xa5d7fdc2ccf59972, 0x68efb00a525480, 0x1, 0x0),
        6 => u128x128_from_limbs(0xdf9daaa568442caa, 0xd20a63b4173839, 0x1, 0x0),
        7 => u128x128_from_limbs(0x9738df5e96639678, 0x1a4c11c742dd772, 0x1, 0x0),
        8 => u128x128_from_limbs(0xdc0d6de43d0880e1, 0x34c35c31f64cfa6, 0x1, 0x0),
        9 => u128x128_from_limbs(0x81bed5a32b0fcc89, 0x6a34b78c8aaffbf, 0x1, 0x0),
        10 => u128x128_from_limbs(0x9ae771b16294a3fa, 0xd72a6a46ccd8bce, 0x1, 0x0),
        11 => u128x128_from_limbs(0xdc757faa331545ab, 0x1b9a258e63928596, 0x1, 0x0),
        12 => u128x128_from_limbs(0x3cd17be5c343c1f1, 0x3a2e2bda04f8379f, 0x1, 0x0),
        13 => u128x128_from_limbs(0x77f2ab42e87cc7f4, 0x81954be69e0da8fe, 0x1, 0x0),
        14 => u128x128_from_limbs(0x802528770905978c, 0x44c2655d185a0290, 0x2, 0x0),
        15 => u128x128_from_limbs(0x616779e807dffc0e, 0x25816eeb9f935b1c, 0x5, 0x0),
        16 => u128x128_from_limbs(0xd31ae065019f5490, 0x7c8d00b551684ff4, 0x1a, 0x0),
        17 => u128x128_from_limbs(0x590c66cddeb02bc6, 0x893d0b2df7c97884, 0x2bd, 0x0),
        18 => u128x128_from_limbs(0x2152dcb322dc5a70, 0xe1e19e448cf8b95d, 0x78278, 0x0),
        19 => u128x128_from_limbs(0x387b6601c646737c, 0x57501416feade319, 0x38651b58d4, 0x0),
        20 => u128x128_from_limbs(0xf0bc5ddc0e31509, 0x961ae4ca110e58cb, 0x63e573e99b8b10f5, 0xc6c),
        _ => u128x128_from_limbs(0, 0, 0, 0),
    }
}

/// Raw spot square-root price of a non-negative tick magnitude, computed as
/// the product of the table factors selected by the binary digits of `mag`.
pub fn spot_sqrtprice_mag(mag: u32) -> (r: U128X128)
    requires
        mag < 0x100000,
    ensures
        r.wf(),
        r.as_nat() == spec_price_mag(mag as nat),
        pow2(128) <= r.as_nat(),
        r.as_nat() <= spec_acc_bound(20),
{
    let mut acc = U128X128::one();
    let mut k: usize = 0;
    let mut pw: u32 = 1;
    proof {
        lemma2_to64();
        lemma_pow2_adds(64, 64);
        assert(pow2(128) == 0x100000000000000000000000000000000nat);
        assert(spec_acc_bound(0) == pow2(128));
    }
    while k < 20
        invariant
            k <= 20,
            mag < 0x100000,
            pw == pow2(k as nat),
            pw >= 1,
            acc.wf(),
            pow2(128) <= acc.as_nat(),
            acc.as_nat() <= spec_acc_bound(k as int),
            spec_price_fold(mag as nat, k as nat, acc.as_nat()) == spec_price_mag(mag as nat),
        decreases 20 - k,
    {
        let bit: u32 = (mag / pw) % 2;
        let ghost acc_old = acc.as_nat();
        proof {
            lemma_acc_bound_step(k as int);
            lemma2_to64();
            lemma_pow2_adds(64, 64);
            lemma_pow2_adds(128, 128);
            assert(pow2(128) == 0x100000000000000000000000000000000nat);
        }
        if bit == 1 {
            let f = tick_factor(k);
            proof {
                let av = acc.as_nat() as int;
                let bv = spec_acc_bound(k as int) as int;
                let fv = f.as_nat() as int;
                let p = pow2(128) as int;
                // upper bound: acc * f <= bound * f, so the floored product
                // stays within the next bound
                lemma_mul_inequality(av, bv, fv);
                lemma_div_is_ordered(av * fv, bv * fv, p);
                // lower bound: f >= 2^128 keeps the product at or above acc
                lemma_mul_inequality(p, fv, av);
                vstd::arithmetic::mul::lemma_mul_is_commutative(p, av);
                vstd::arithmetic::mul::lemma_mul_is_commutative(fv, av);
                lemma_div_is_ordered(av * p, av * fv, p);
                lemma_div_by_multiple(av, p);
            }
            acc = acc.mul(&f);
        }
        proof {
            assert(((mag as nat) / pow2(k as nat)) % 2 == (bit as nat));
            assert(spec_price_fold(mag as nat, k as nat, acc_old) == spec_price_fold(
                mag as nat,
                (k + 1) as nat,
                acc.as_nat(),
            ));
            lemma_pow2_adds(k as nat, 1);
            assert(pow2((k + 1) as nat) == pow2(k as nat) * 2);
            lemma_pow2_strictly_increases((k + 1) as nat, 21);
            assert(pow2(21) == 0x200000);
        }
        pw = pw * 2;
        k = k + 1;
    }
    acc
}

/// Raw spot square-root price of a signed tick index.
pub fn spot_sqrtprice_of_index(index: i32) -> (r: U128X128)
    requires
        -0xfffff <= index <= 0xfffff,
    ensures
        r.wf(),
        r.as_nat() == spec_spot_sqrtprice(index as int),
        r.as_nat() > 0,
        index >= 0 ==> r.as_nat() >= pow2(128),
{
    if index >= 0 {
        let r = spot_sqrtprice_mag(index as u32);
        proof {
            lemma_pow2_pos(128);
        }
        r
    } else {
        let mag = spot_sqrtprice_mag((-index) as u32);
        let one = U128X128::one();
        proof {
            lemma_pow2_pos(128);
            lemma_pow2_adds(128, 128);
            mag.lemma_as_nat_bound();
            vstd::arithmetic::div_mod::lemma_div_by_self(mag.as_nat() as int);
            lemma_div_is_ordered(
                mag.as_nat() as int,
                pow2(256) as int,
                mag.as_nat() as int,
            );
            lemma_pow2_adds(128, 128);
            lemma_pow2_pos(128);
            // 2^256 / mag <= 2^256 / 2^128 = 2^128 < 2^256
            lemma_div_is_ordered_by_denominator(
                pow2(256) as int,
                pow2(128) as int,
                mag.as_nat() as int,
            );
            lemma_div_by_multiple(pow2(128) as int, pow2(128) as int);
            lemma_pow2_strictly_increases(128, 256);
            assert(one.as_nat() * U128X128::scale() == pow2(128) * pow2(128));
        }
        one.div(&mag)
    }
}

/// `2^fee_level`: the fee of a level, measured in ticks.
pub fn fee_rate_ticks(fee_level: u8) -> (r: u16)
    requires
        fee_level < 8,
    ensures
        (r as nat) == pow2(fee_level as nat),
        1 <= r <= 128,
{
    proof {
        lemma2_to64();
    }
    match fee_level {
        0 => 1,
        1 => 2,
        2 => 4,
        3 => 8,
        4 => 16,
        5 => 32,
        6 => 64,
        7 => 128,
        _ => 1,
    }
}

/// The fee levels in ascending order.
pub fn fee_levels() -> (r: Vec<u8>)
    ensures
        r@.len() == 8,
        forall|i: int| 0 <= i < 8 ==> r@[i] == i as u8,
{
    let mut r: Vec<u8> = Vec::new();
    let mut i: u8 = 0;
    while i < 8
        invariant
            i <= 8,
            r@.len() == i as int,
            forall|j: int| 0 <= j < i as int ==> r@[j] == j as u8,
        decreases 8 - i,
    {
        r.push(i);
        i = i + 1;
    }
    r
}

/// The per-level fee rates, in ticks.
pub fn fee_rates_ticks() -> (r: Vec<u16>)
    ensures
        r@.len() == 8,
        forall|i: int| 0 <= i < 8 ==> (r@[i] as nat) == pow2(i as nat),
{
    let mut r: Vec<u16> = Vec::new();
    let mut i: u8 = 0;
    while i < 8
        invariant
            i <= 8,
            r@.len() == i as int,
            forall|j: int| 0 <= j < i as int ==> (r@[j] as nat) == pow2(j as nat),
        decreases 8 - i,
    {
        r.push(fee_rate_ticks(i));
        i = i + 1;
    }
    r
}

/// A point on the price grid corresponding to a spot price.
#[derive(Clone, Copy, Debug, PartialEq, Eq, Structural)]
pub struct Tick {
    pub index: i32,
}

impl Tick {
    pub open spec fn spec_index(&self) -> int {
        self.index as int
    }

    pub open spec fn spec_valid(&self) -> bool {
        MIN_TICK <= self.index <= MAX_TICK
    }

    pub open spec fn spec_valid_index(value: int) -> bool {
        MIN_TICK <= value <= MAX_TICK
    }

    pub fn is_valid(value: i32) -> (r: bool)
        ensures
            r <==> Self::spec_valid_index(value as int),
    {
        MIN_TICK <= value && value <= MAX_TICK
    }

    pub fn new(value: i32) -> (r: Result<Tick, ErrorKind>)
        ensures
            match r {
                Ok(t) => Self::spec_valid_index(value as int) && t.spec_index() == value
                    && t.spec_valid(),
                Err(e) => !Self::spec_valid_index(value as int) && e
                    == ErrorKind::PriceTickOutOfBounds,
            },
    {
        if Self::is_valid(value) {
            Ok(Tick { index: value })
        } else {
            Err(ErrorKind::PriceTickOutOfBounds)
        }
    }

    /// Least valid tick.
    pub fn lowest() -> (r: Tick)
        ensures
            r.spec_index() == MIN_TICK,
            r.spec_valid(),
    {
        Tick { index: MIN_TICK }
    }

    /// Greatest valid tick.
    pub fn highest() -> (r: Tick)
        ensures
            r.spec_index() == MAX_TICK,
            r.spec_valid(),
    {
        Tick { index: MAX_TICK }
    }

    pub fn index(&self) -> (r: i32)
        ensures
            (r as int) == self.spec_index(),
    {
        self.index
    }

    /// The index, with the extreme ticks mapped to `None`.
    pub fn to_opt_index(&self) -> (r: Option<i32>)
        ensures
            match r {
                Some(v) => MIN_TICK < v < MAX_TICK && (v as int) == self.spec_index(),
                None => self.spec_index() <= MIN_TICK || self.spec_index() >= MAX_TICK,
            },
    {
        if MIN_TICK < self.index && self.index < MAX_TICK {
            Some(self.index)
        } else {
            None
        }
    }

    pub fn opposite(&self) -> (r: Tick)
        requires
            self.spec_valid(),
        ensures
            r.spec_index() == -self.spec_index(),
            r.spec_valid(),
    {
        Tick { index: -self.index }
    }

    pub fn opposite_if(&self, is_opposite: bool) -> (r: Tick)
        requires
            self.spec_valid(),
        ensures
            r.spec_valid(),
            r.spec_index() == if is_opposite {
                -self.spec_index()
            } else {
                self.spec_index()
            },
    {
        if is_opposite {
            self.opposite()
        } else {
            *self
        }
    }

    /// Resolve an optional tick range; `None` bounds map to the widest ticks.
    pub fn unwrap_range(as_options: (Option<i32>, Option<i32>)) -> (r: Result<
        (Tick, Tick),
        ErrorKind,
    >)
        ensures
            match r {
                Ok((lo, hi)) => {
                    &&& lo.spec_valid()
                    &&& hi.spec_valid()
                    &&& lo.spec_index() == match as_options.0 {
                        Some(v) => v as int,
                        None => MIN_TICK as int,
                    }
                    &&& hi.spec_index() == match as_options.1 {
                        Some(v) => v as int,
                        None => MAX_TICK as int,
                    }
                },
                Err(e) => e == ErrorKind::PriceTickOutOfBounds && (match as_options.0 {
                    Some(v) => !Self::spec_valid_index(v as int),
                    None => false,
                } || match as_options.1 {
                    Some(v) => !Self::spec_valid_index(v as int),
                    None => false,
                }),
            },
    {
        let lo = match as_options.0 {
            Some(tick_low) => match Tick::new(tick_low) {
                Ok(t) => t,
                Err(e) => {
                    return Err(e);
                },
            },
            None => Tick::lowest(),
        };
        let hi = match as_options.1 {
            Some(tick_high) => match Tick::new(tick_high) {
                Ok(t) => t,
                Err(e) => {
                    return Err(e);
                },
            },
            None => Tick::highest(),
        };
        Ok((lo, hi))
    }

    /// Inverse of [`Tick::unwrap_range`]: extreme ticks map back to `None`.
    pub fn wrap_range(as_ticks: (Tick, Tick)) -> (r: (Option<i32>, Option<i32>))
        ensures
            r.0 == (if as_ticks.0.spec_index() <= MIN_TICK {
                Option::<i32>::None
            } else {
                Some(as_ticks.0.spec_index() as i32)
            }),
            r.1 == (if as_ticks.1.spec_index() >= MAX_TICK {
                Option::<i32>::None
            } else {
                Some(as_ticks.1.spec_index() as i32)
            }),
    {
        (
            if as_ticks.0.index <= MIN_TICK {
                None
            } else {
                Some(as_ticks.0.index)
            },
            if as_ticks.1.index >= MAX_TICK {
                None
            } else {
                Some(as_ticks.1.index)
            },
        )
    }

    /// Raw spot square-root price of this tick, for a left-side swap.
    pub fn spot_sqrtprice(&self) -> (r: U128X128)
        requires
            self.spec_valid(),
        ensures
            r.wf(),
            r.as_nat() == spec_spot_sqrtprice(self.spec_index()),
            r.as_nat() > 0,
    {
        spot_sqrtprice_of_index(self.index)
    }

    /// Raw effective square-root price of this tick on a fee level and side.
    pub fn eff_sqrtprice(&self, fee_level: u8, side: Side) -> (r: U128X128)
        requires
            self.spec_valid(),
            fee_level < 8,
        ensures
            r.wf(),
            r.as_nat() == spec_spot_sqrtprice(
                spec_eff_tick_index(self.spec_index(), fee_level as int, side),
            ),
            r.as_nat() > 0,
    {
        let eff = EffTick::from_tick(*self, fee_level, side);
        eff.eff_sqrtprice()
    }

    /// The tick with the same effective price on another fee level.
    pub fn with_same_eff_price(self, this_level: u8, other_level: u8, swap_direction: Side) -> (r:
        Result<Tick, ErrorKind>)
        requires
            self.spec_valid(),
            this_level < 8,
            other_level < 8,
        ensures
            match r {
                Ok(t) => t.spec_valid() && spec_eff_tick_index(
                    t.spec_index(),
                    other_level as int,
                    swap_direction,
                ) == spec_eff_tick_index(self.spec_index(), this_level as int, swap_direction),
                Err(e) => e == ErrorKind::PriceTickOutOfBounds,
            },
    {
        EffTick::from_tick(self, this_level, swap_direction).to_tick(other_level, swap_direction)
    }
}

/// Effective-tick index of tick `t` on `fee_level`, for a given swap side.
pub open spec fn spec_eff_tick_index(t: int, fee_level: int, side: Side) -> int {
    match side {
        Side::Left => t + pow2(fee_level as nat),
        Side::Right => -t + pow2(fee_level as nat),
    }
}

/// A point on the extended price grid corresponding to an effective price.
#[derive(Clone, Copy, Debug, PartialEq, Eq, Structural)]
pub struct EffTick {
    pub index: i32,
}

impl EffTick {
    pub open spec fn spec_index(&self) -> int {
        self.index as int
    }

    pub open spec fn spec_valid(&self) -> bool {
        MIN_EFF_TICK <= self.index <= MAX_EFF_TICK
    }

    pub open spec fn spec_valid_index(value: int) -> bool {
        MIN_EFF_TICK <= value <= MAX_EFF_TICK
    }

    pub fn is_valid(index: i32) -> (r: bool)
        ensures
            r <==> Self::spec_valid_index(index as int),
    {
        MIN_EFF_TICK <= index && index <= MAX_EFF_TICK
    }

    pub fn new(index: i32) -> (r: Result<EffTick, ErrorKind>)
        ensures
            match r {
                Ok(t) => Self::spec_valid_index(index as int) && t.spec_index() == index
                    && t.spec_valid(),
                Err(e) => !Self::spec_valid_index(index as int) && e
                    == ErrorKind::PriceTickOutOfBounds,
            },
    {
        if Self::is_valid(index) {
            Ok(EffTick { index })
        } else {
            Err(ErrorKind::PriceTickOutOfBounds)
        }
    }

    /// The effective tick of price one: the default pivot.
    pub fn origin() -> (r: EffTick)
        ensures
            r.spec_index() == 0,
            r.spec_valid(),
    {
        EffTick { index: 0 }
    }

    pub fn index(&self) -> (r: i32)
        ensures
            (r as int) == self.spec_index(),
    {
        self.index
    }

    pub fn from_tick(tick: Tick, fee_level: u8, side: Side) -> (r: EffTick)
        requires
            tick.spec_valid(),
            fee_level < 8,
        ensures
            r.spec_index() == spec_eff_tick_index(tick.spec_index(), fee_level as int, side),
            r.spec_valid(),
    {
        let fr = fee_rate_ticks(fee_level) as i32;
        let eff_tick_index: i32 = match side {
            Side::Left => tick.index() + fr,
            Side::Right => -tick.index() + fr,
        };
        proof {
            lemma2_to64();
        }
        EffTick { index: eff_tick_index }
    }

    pub fn to_tick(&self, fee_level: u8, side: Side) -> (r: Result<Tick, ErrorKind>)
        requires
            self.spec_valid(),
            fee_level < 8,
        ensures
            match r {
                Ok(t) => t.spec_valid() && spec_eff_tick_index(
                    t.spec_index(),
                    fee_level as int,
                    side,
                ) == self.spec_index(),
                Err(e) => e == ErrorKind::PriceTickOutOfBounds,
            },
    {
        let fr = fee_rate_ticks(fee_level) as i32;
        let tick_index: i32 = match side {
            Side::Left => self.index - fr,
            Side::Right => -self.index + fr,
        };
        proof {
            lemma2_to64();
        }
        Tick::new(tick_index)
    }

    /// Raw effective square-root price of this effective tick.
    pub fn eff_sqrtprice(&self) -> (r: U128X128)
        requires
            self.spec_valid(),
        ensures
            r.wf(),
            r.as_nat() == spec_spot_sqrtprice(self.spec_index()),
            r.as_nat() > 0,
    {
        spot_sqrtprice_of_index(self.index)
    }

    /// The effective tick with the reciprocal effective price, on the other
    /// swap side of the same fee level.
    pub fn opposite(&self, fee_level: u8) -> (r: Result<EffTick, ErrorKind>)
        requires
            self.spec_valid(),
            fee_level < 8,
        ensures
            match r {
                Ok(t) => t.spec_valid() && t.spec_index() == -self.spec_index() + 2 * pow2(
                    fee_level as nat,
                ),
                Err(e) => e == ErrorKind::PriceTickOutOfBounds,
            },
    {
        let fr = fee_rate_ticks(fee_level) as i32;
        proof {
            lemma2_to64();
        }
        EffTick::new(-self.index + 2 * fr)
    }

    pub fn shifted(&self, step: i32) -> (r: Result<EffTick, ErrorKind>)
        requires
            self.spec_valid(),
            -0x10000000 <= step <= 0x10000000,
        ensures
            match r {
                Ok(t) => t.spec_valid() && t.spec_index() == self.spec_index() + step,
                Err(e) => e == ErrorKind::PriceTickOutOfBounds && !Self::spec_valid_index(
                    self.spec_index() + step,
                ),
            },
    {
        EffTick::new(self.index + step)
    }
}

} // verus!
