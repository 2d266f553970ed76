use veax_dex::errors::ErrorKind;
use veax_dex::fp::u128x128::U128X128;
use veax_dex::price::{find_pivot, eff_sqrtprice_opposite_side, fee_rate, next_up, next_down,
    one_over_one_minus_fee_rate, one_over_sqrt_one_minus_fee_rate};
use veax_dex::tick::{Tick, EffTick, tick_factor, fee_rate_ticks, fee_levels, fee_rates_ticks,
    MIN_TICK, MAX_TICK, MIN_EFF_TICK, MAX_EFF_TICK};
use veax_dex::util_types::Side;

#[test]
fn tick_validity_bounds() {
    assert!(Tick::new(0).is_ok());
    assert!(Tick::new(MAX_TICK).is_ok());
    assert!(Tick::new(MIN_TICK).is_ok());
    assert!(matches!(Tick::new(MAX_TICK + 1), Err(ErrorKind::PriceTickOutOfBounds)));
    assert!(matches!(Tick::new(MIN_TICK - 1), Err(ErrorKind::PriceTickOutOfBounds)));
    assert!(EffTick::new(MAX_EFF_TICK).is_ok());
    assert!(EffTick::new(MAX_EFF_TICK + 1).is_err());
    assert!(EffTick::new(MIN_EFF_TICK).is_ok());
}

#[test]
fn tick_range_wrapping() {
    let (lo, hi) = Tick::unwrap_range((None, None)).unwrap();
    assert_eq!(lo.index(), MIN_TICK);
    assert_eq!(hi.index(), MAX_TICK);
    let (lo2, hi2) = Tick::unwrap_range((Some(-5), Some(9))).unwrap();
    assert_eq!(lo2.index(), -5);
    assert_eq!(hi2.index(), 9);
    assert!(Tick::unwrap_range((Some(MIN_TICK - 1), None)).is_err());
    let wrapped = Tick::wrap_range((lo, hi2));
    assert_eq!(wrapped, (None, Some(9)));
}

#[test]
fn fee_rates_double_per_level() {
    let rates = fee_rates_ticks();
    assert_eq!(rates.len(), 8);
    for l in 0..8u8 {
        assert_eq!(rates[l as usize], 1u16 << l);
        assert_eq!(fee_rate_ticks(l), 1u16 << l);
    }
    let levels = fee_levels();
    assert_eq!(levels, vec![0, 1, 2, 3, 4, 5, 6, 7]);
}

#[test]
fn spot_price_of_zero_tick_is_one() {
    let t = Tick::new(0).unwrap();
    let p = t.spot_sqrtprice();
    assert!(p.eq_val(&U128X128::one()));
}

#[test]
fn spot_price_of_one_tick_is_the_base_factor() {
    let t = Tick::new(1).unwrap();
    let p = t.spot_sqrtprice();
    assert!(p.eq_val(&tick_factor(0)));
    assert_eq!(p.upper_part(), 1);
    // sqrt(1.0001) - 1 in 128 fractional bits
    assert_eq!(p.lower_part(), 0x346d6ff11672ae55ad00f5c38565c);
}

#[test]
fn spot_price_is_monotone_and_symmetric() {
    let values = [-887272, -1000, -1, 0, 1, 1000, 887272];
    let mut prev: Option<U128X128> = None;
    for &i in &values {
        let p = Tick::new(i).unwrap().spot_sqrtprice();
        if let Some(q) = prev {
            assert!(q.lt(&p));
        }
        prev = Some(p);
    }
    // opposite ticks have reciprocal prices, up to rounding
    let p = Tick::new(100).unwrap().spot_sqrtprice();
    let n = Tick::new(-100).unwrap().spot_sqrtprice();
    let prod = p.mul(&n);
    // the product is one up to the last few fractional bits
    assert_eq!(prod.upper_part(), 0);
    assert!(prod.lower_part() > u128::MAX - (1 << 12));
}

#[test]
fn eff_tick_shifts_by_fee() {
    let t = Tick::new(10).unwrap();
    let e = EffTick::from_tick(t, 3, Side::Left);
    assert_eq!(e.index(), 10 + 8);
    let e2 = EffTick::from_tick(t, 3, Side::Right);
    assert_eq!(e2.index(), -10 + 8);
    let back = e.to_tick(3, Side::Left).unwrap();
    assert_eq!(back.index(), 10);
    let opp = e.opposite(3).unwrap();
    assert_eq!(opp.index(), -18 + 16);
}

#[test]
fn with_same_eff_price_across_levels() {
    let t = Tick::new(100).unwrap();
    let u = t.with_same_eff_price(0, 2, Side::Left).unwrap();
    // eff index is preserved: 100 + 1 == u + 4
    assert_eq!(u.index(), 97);
}

#[test]
fn fee_rate_of_level_zero_is_about_one_ten_thousandth() {
    let r = fee_rate(0).unwrap();
    assert_eq!(r.upper_part(), 0);
    // 0.0001 * 2^128 within one part in a thousand
    let expected = 34028236692093846346337460743176821;
    let got = r.lower_part();
    assert!(got > expected - expected / 1000 && got < expected + expected / 1000);
    let oo = one_over_one_minus_fee_rate(0);
    assert_eq!(oo.upper_part(), 1);
    let oos = one_over_sqrt_one_minus_fee_rate(0);
    assert!(oos.lt(&oo));
}

#[test]
fn next_up_and_down_step_one_ulp() {
    let x = U128X128::from_u128(7);
    let up = next_up(&x);
    let down = next_down(&up);
    assert!(down.eq_val(&x));
    assert!(x.lt(&up));
}

#[test]
fn pivot_recovers_the_tick() {
    // price of a tick, inverted through the pivot search, lands within one
    // tick of where it started
    for &i in &[0i32, 1, -1, 100, -100, 12345, -54321, 700000, -700000] {
        let t = Tick::new(i).unwrap();
        let eff = t.eff_sqrtprice(0, Side::Left);
        let pivot = find_pivot(EffTick::origin(), &eff).unwrap();
        let expected = i + 1;  // the level-0 left-side fee shift
        let diff = pivot.index() - expected;
        assert!(-1 <= diff && diff <= 1, "tick {} pivot {}", i, pivot.index());
    }
}

#[test]
fn opposite_side_price_inverts() {
    let t = Tick::new(1000).unwrap();
    let eff = t.eff_sqrtprice(0, Side::Left);
    let opp = eff_sqrtprice_opposite_side(&eff, 0, None).unwrap();
    // the opposite-side price of the same tick, directly
    let direct = t.eff_sqrtprice(0, Side::Right);
    // both are near the reciprocal: their relative difference is tiny
    let (a, b) = if opp.lt(&direct) { (opp, direct) } else { (direct, opp) };
    let diff = b.sub(&a);
    // within about 2^-100 relative
    assert_eq!(diff.upper_part(), 0);
    assert!(diff.lower_part() < 1u128 << 40);
}
