use veax_dex::fp::u128x128::U128X128;
use veax_dex::fp::u192x64::U192X64;
use veax_dex::fp::u192x192::U192X192;
use veax_dex::fp::u256x256::U256X256;
use veax_dex::fp::signed::{I128X128, Signed};
use veax_dex::fp::{fp_from_mantissa_exponent, Error};

#[test]
fn add_sub_roundtrip_is_exact() {
    let a = U128X128::from_u128(12345678901234567890);
    let b = U128X128::from_u128(98765432109876543210);
    let sum = a.add(&b);
    let back = sum.sub(&b);
    assert!(back.eq_val(&a));
}

#[test]
fn mul_div_is_within_tolerance() {
    let a = U128X128::from_u128(1000000007);
    let b = U128X128::from_u128(37);
    let prod = a.mul(&b);
    let quot = prod.div(&b);
    // floor rounding never overshoots
    assert!(quot.le(&a));
    // and on integral inputs the round trip is exact
    assert!(quot.eq_val(&a));
}

#[test]
fn integer_arithmetic_matches_expected_values() {
    let six = U128X128::from_u128(6);
    let seven = U128X128::from_u128(7);
    let p = six.mul(&seven);
    assert_eq!(p.try_to_u128_floor(), Some(42));
    let q = p.div(&six);
    assert_eq!(q.try_to_u128_floor(), Some(7));
}

#[test]
fn fract_floor_ceil() {
    let three = U256X256::from_u128(3);
    let two = U256X256::from_u128(2);
    let half_odd = three.div(&two);  // 1.5
    assert_eq!(half_odd.try_to_u128_floor(), Some(1));
    assert!(!half_odd.fract().is_zero());
    assert!(half_odd.floor().fract().is_zero());
    let up = half_odd.ceil();
    assert_eq!(up.try_to_u128_floor(), Some(2));
    let whole = U256X256::from_u128(5);
    assert!(whole.ceil().eq_val(&whole));
}

#[test]
fn integer_sqrt_exact_square() {
    let x = U128X128::from_u128(144);
    let r = x.integer_sqrt();
    assert_eq!(r.try_to_u128_floor(), Some(12));
    let y = U128X128::from_u128(2);
    let s = y.integer_sqrt();
    // sqrt(2) = 1.41..: the integer part is 1
    assert_eq!(s.try_to_u128_floor(), Some(1));
    assert!(!s.fract().is_zero());
}

#[test]
fn cube_root_exact_cube() {
    let x = U192X192::from_u128(27);
    let r = x.integer_cbrt();
    assert_eq!(r.try_to_u128_floor(), Some(3));
}

#[test]
fn checked_ops_report_overflow() {
    // (2^126)^2 does not fit in 128 integer bits, but the sum does
    let big = U128X128::from_u128(1u128 << 126);
    assert!(big.checked_mul(&big).is_none());
    assert!(big.checked_add(&big).is_some());
    let bigger = U128X128::from_u128(1u128 << 127);
    assert!(bigger.checked_add(&bigger).is_none());
    let one = U128X128::one();
    assert!(one.checked_mul(&one).is_some());
    // subtraction below zero is refused
    let two = U128X128::from_u128(2);
    let five = U128X128::from_u128(5);
    assert!(two.checked_sub(&five).is_none());
    assert!(five.checked_sub(&two).is_some());
}

#[test]
fn recip_of_two_is_half() {
    let two = U128X128::from_u128(2);
    let half = two.recip();
    assert_eq!(half.try_to_u128_floor(), Some(0));
    let back = half.mul(&U128X128::from_u128(4));
    assert_eq!(back.try_to_u128_floor(), Some(2));
}

#[test]
fn signed_arithmetic_and_order() {
    let a = Signed::<U192X64>::from_unsigned(U192X64::from_u128(10));
    let b = Signed::<U192X64>::from_unsigned(U192X64::from_u128(4)).neg();
    let s = a.checked_add(&b).unwrap();
    match s.clone().try_into_unsigned() {
        Ok(v) => assert_eq!(v.try_to_u128_floor(), Some(6)),
        Err(_) => panic!("expected a non-negative result"),
    }
    let d = b.checked_sub(&a).unwrap();
    assert!(d.lt(&Signed::<U192X64>::zero()));
    assert!(matches!(d.try_into_unsigned(), Err(Error::NegativeToUnsigned)));
}

#[test]
fn signed_neg_from_and_pos_from() {
    let a: I128X128 = Signed::<U128X128>::from_unsigned(U128X128::from_u128(3));
    let n = a.clone().neg_from();
    assert!(n.lt(&Signed::<U128X128>::zero()));
    let p = n.clone().pos_from();
    assert!(p.eq_val(&n));
}

#[test]
fn mantissa_exponent_placement() {
    // 1.5 = 3 * 2^-1 placed into 2 fractional limbs: raw = 3 * 2^127
    let v = fp_from_mantissa_exponent(3, -1, 2, 4).unwrap();
    assert_eq!(v[1], 1u64 << 63);
    assert_eq!(v[2], 1);
    assert_eq!(v[0], 0);
    assert_eq!(v[3], 0);
    // bits falling below the representation are an error, not rounding
    assert!(matches!(
        fp_from_mantissa_exponent(3, -129, 2, 4),
        Err(Error::PrecisionLoss)
    ));
    // an exponent too large overflows
    assert!(matches!(
        fp_from_mantissa_exponent(3, 130, 2, 4),
        Err(Error::Overflow)
    ));
}

#[test]
fn float_decomposition_roundtrip() {
    // decompose engine floats as f64, place them exactly, and recover them
    for &x in &[1.5f64, 0.25f64, 1048576.0f64, 3.141592653589793f64] {
        let bits = x.to_bits();
        let mantissa = (bits & 0xf_ffff_ffff_ffff) | 0x10_0000_0000_0000;
        let exponent = ((bits >> 52) & 0x7ff) as i32 - 1075;
        let v = fp_from_mantissa_exponent(mantissa, exponent, 2, 4).unwrap();
        // reconstruct through the raw limbs
        let frac = (v[0] as f64) / 18446744073709551616.0f64 / 18446744073709551616.0f64
            + (v[1] as f64) / 18446744073709551616.0f64;
        let int = v[2] as f64 + v[3] as f64 * 18446744073709551616.0f64;
        let back = int + frac;
        assert_eq!(back, x);
    }
}
