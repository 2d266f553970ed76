use veax_dex::dex::{Dex, PoolId, Action, ActionResult, SwapAction, Path};
use veax_dex::errors::ErrorKind;
use veax_dex::util_types::PositionInit;

const ALICE: u64 = 1;
const BOB: u64 = 2;
const TOKEN_A: u64 = 10;
const TOKEN_B: u64 = 20;
const TOKEN_C: u64 = 30;

fn fresh_dex() -> Dex {
    let mut dex = Dex::new(0, 1300).unwrap();
    dex.register_account(ALICE).unwrap();
    dex.register_tokens(ALICE, &vec![TOKEN_A, TOKEN_B, TOKEN_C]).unwrap();
    dex.deposit(ALICE, TOKEN_A, 1_000_000).unwrap();
    dex.deposit(ALICE, TOKEN_B, 1_000_000).unwrap();
    dex.deposit(ALICE, TOKEN_C, 1_000_000).unwrap();
    dex
}

fn pool_key(a: u64, b: u64) -> u128 {
    let (id, _) = PoolId::try_from_pair(a, b).unwrap();
    id.key()
}

#[test]
fn first_position_on_empty_pool() {
    let mut dex = fresh_dex();
    // full tick range, both tokens offered in [1, 1000]
    let init = PositionInit::new_full_range(1, 1000, 1, 1000);
    let (id, used_a, used_b, _liq) = dex
        .open_position(ALICE, TOKEN_A, TOKEN_B, 1, &init)
        .unwrap();
    // the very first position id
    assert_eq!(id, 0);
    // the pool initializes and charges within the offered ranges
    assert!(used_a >= 1 && used_a <= 1000);
    assert!(used_b >= 1 && used_b <= 1000);
    // the pool now exists and holds the charge
    let key = pool_key(TOKEN_A, TOKEN_B);
    let pool = dex.pools.get(key).unwrap();
    assert!(pool.total_reserves.0 + pool.total_reserves.1 > 0);
    // the caller's balances were debited accordingly
    let (id2, _, _, _) = dex
        .open_position(ALICE, TOKEN_A, TOKEN_B, 1, &init)
        .unwrap();
    assert_eq!(id2, 1);
}

#[test]
fn open_then_close_returns_the_deposit() {
    let mut dex = fresh_dex();
    let bal_a0 = dex.get_deposit(ALICE, TOKEN_A).unwrap();
    let bal_b0 = dex.get_deposit(ALICE, TOKEN_B).unwrap();
    let init = PositionInit::new_full_range(1, 1000, 1, 1000);
    let (id, used_a, used_b, _liq) = dex
        .open_position(ALICE, TOKEN_A, TOKEN_B, 1, &init)
        .unwrap();
    assert_eq!(dex.get_deposit(ALICE, TOKEN_A).unwrap(), bal_a0 - used_a);
    assert_eq!(dex.get_deposit(ALICE, TOKEN_B).unwrap(), bal_b0 - used_b);
    // no swaps happened: closing returns the deposit up to rounding, and
    // never more than was paid in
    dex.close_position(ALICE, id).unwrap();
    let bal_a1 = dex.get_deposit(ALICE, TOKEN_A).unwrap();
    let bal_b1 = dex.get_deposit(ALICE, TOKEN_B).unwrap();
    assert!(bal_a1 <= bal_a0 && bal_b1 <= bal_b0);
    assert!(bal_a0 - bal_a1 <= 2, "lost more than rounding: {}", bal_a0 - bal_a1);
    assert!(bal_b0 - bal_b1 <= 2, "lost more than rounding: {}", bal_b0 - bal_b1);
    // the pool is empty again
    let key = pool_key(TOKEN_A, TOKEN_B);
    let pool = dex.pools.get(key).unwrap();
    assert!(!pool.is_spot_price_set());
}

#[test]
fn shared_boundary_tick_reference_counting() {
    let mut dex = fresh_dex();
    // two positions sharing the upper boundary tick 1000
    let mut init1 = PositionInit::new_full_range(1, 1000, 1, 1000);
    init1.ticks_range = (Some(-1000), Some(1000));
    let mut init2 = PositionInit::new_full_range(1, 1000, 1, 1000);
    init2.ticks_range = (Some(-2000), Some(1000));
    let (id1, _, _, _) = dex.open_position(ALICE, TOKEN_A, TOKEN_B, 1, &init1).unwrap();
    let (_id2, _, _, _) = dex.open_position(ALICE, TOKEN_A, TOKEN_B, 1, &init2).unwrap();
    // the canonical token order mirrors the tick ranges: the positions
    // become (-1000, 1000) and (-1000, 2000), sharing the lower tick
    let key = pool_key(TOKEN_A, TOKEN_B);
    {
        let pool = dex.pools.get(key).unwrap();
        let shared = pool.tick_states[0].get(-1000).unwrap();
        assert_eq!(shared.reference_counter, 2);
        let lone = pool.tick_states[0].get(2000).unwrap();
        assert_eq!(lone.reference_counter, 1);
    }
    // closing the first position decrements the shared tick but keeps it
    dex.close_position(ALICE, id1).unwrap();
    {
        let pool = dex.pools.get(key).unwrap();
        let shared = pool.tick_states[0].get(-1000).unwrap();
        assert_eq!(shared.reference_counter, 1);
        // the unshared boundary of the closed position is gone
        assert!(!pool.tick_states[0].contains_key(1000));
        assert!(pool.tick_states[0].contains_key(2000));
    }
}

#[test]
fn closing_one_level_keeps_other_levels_alive() {
    // positions on two different fee levels: closing one must not reset
    // the pool while the other still holds liquidity
    let mut dex = fresh_dex();
    let init0 = PositionInit::new_full_range(1, 1000, 1, 1000);
    let (id0, _, _, _) = dex.open_position(ALICE, TOKEN_A, TOKEN_B, 1, &init0).unwrap();
    let init7 = PositionInit::new_full_range(1, 1000, 1, 1000);
    let (id7, used7_a, used7_b, _) = dex
        .open_position(ALICE, TOKEN_A, TOKEN_B, 128, &init7)
        .unwrap();
    let key = pool_key(TOKEN_A, TOKEN_B);
    dex.close_position(ALICE, id0).unwrap();
    {
        let pool = dex.pools.get(key).unwrap();
        // the level-7 position still holds the price state
        assert!(pool.is_spot_price_set());
    }
    // closing the remaining position returns its deposit, not zero
    let bal_a = dex.get_deposit(ALICE, TOKEN_A).unwrap();
    let bal_b = dex.get_deposit(ALICE, TOKEN_B).unwrap();
    dex.close_position(ALICE, id7).unwrap();
    let got_a = dex.get_deposit(ALICE, TOKEN_A).unwrap() - bal_a;
    let got_b = dex.get_deposit(ALICE, TOKEN_B).unwrap() - bal_b;
    assert!(got_a + 2 >= used7_a, "level-7 deposit lost: {} of {}", got_a, used7_a);
    assert!(got_b + 2 >= used7_b, "level-7 deposit lost: {} of {}", got_b, used7_b);
    // and only now is the pool uninitialized again
    let pool = dex.pools.get(key).unwrap();
    assert!(!pool.is_spot_price_set());
}

#[test]
fn swap_exact_in_two_hops_matches_chained_single_hops() {
    let mut dex = fresh_dex();
    let init = PositionInit::new_full_range(1, 100_000, 1, 100_000);
    dex.open_position(ALICE, TOKEN_A, TOKEN_B, 1, &init).unwrap();
    let init2 = PositionInit::new_full_range(1, 100_000, 1, 100_000);
    dex.open_position(ALICE, TOKEN_B, TOKEN_C, 1, &init2).unwrap();

    // an identical second deployment for the chained comparison
    let mut dex2 = fresh_dex();
    let inita = PositionInit::new_full_range(1, 100_000, 1, 100_000);
    dex2.open_position(ALICE, TOKEN_A, TOKEN_B, 1, &inita).unwrap();
    let initb = PositionInit::new_full_range(1, 100_000, 1, 100_000);
    dex2.open_position(ALICE, TOKEN_B, TOKEN_C, 1, &initb).unwrap();

    let (paid, got) = dex
        .swap_exact_in(ALICE, &vec![TOKEN_A, TOKEN_B, TOKEN_C], 100, 1)
        .unwrap();
    assert_eq!(paid, 100);
    // output is strictly below the zero-fee equivalent
    assert!(got > 0 && got < 100);

    let (_, mid) = dex2.swap_exact_in(ALICE, &vec![TOKEN_A, TOKEN_B], 100, 1).unwrap();
    let (_, got2) = dex2.swap_exact_in(ALICE, &vec![TOKEN_B, TOKEN_C], mid, 1).unwrap();
    assert_eq!(got, got2);
}

#[test]
fn swap_rounding_favours_the_pool() {
    let mut dex = fresh_dex();
    let init = PositionInit::new_full_range(1, 100_000, 1, 100_000);
    dex.open_position(ALICE, TOKEN_A, TOKEN_B, 1, &init).unwrap();
    // exact in: the output never exceeds the input at price one
    let (_, out) = dex.swap_exact_in(ALICE, &vec![TOKEN_A, TOKEN_B], 1000, 1).unwrap();
    assert!(out < 1000);
    // exact out: the charge always covers the output at price one
    let (paid, got) = dex
        .swap_exact_out(ALICE, &vec![TOKEN_A, TOKEN_B], 500, 10_000)
        .unwrap();
    assert_eq!(got, 500);
    assert!(paid > 500);
}

#[test]
fn failed_swap_commits_nothing() {
    // a second hop without a pool aborts the whole swap: the first pool's
    // books and the caller's balances stay exactly as they were
    let mut dex = fresh_dex();
    let init = PositionInit::new_full_range(1, 100_000, 1, 100_000);
    dex.open_position(ALICE, TOKEN_A, TOKEN_B, 1, &init).unwrap();
    let key = pool_key(TOKEN_A, TOKEN_B);
    let reserves_before = dex.pools.get(key).unwrap().total_reserves;
    let bal_a = dex.get_deposit(ALICE, TOKEN_A).unwrap();
    let bal_b = dex.get_deposit(ALICE, TOKEN_B).unwrap();
    assert!(matches!(
        dex.swap_exact_in(ALICE, &vec![TOKEN_A, TOKEN_B, TOKEN_C], 100, 1),
        Err(ErrorKind::PoolNotRegistered)
    ));
    assert_eq!(dex.pools.get(key).unwrap().total_reserves, reserves_before);
    assert_eq!(dex.get_deposit(ALICE, TOKEN_A).unwrap(), bal_a);
    assert_eq!(dex.get_deposit(ALICE, TOKEN_B).unwrap(), bal_b);
    // a slippage failure likewise leaves the trade uncommitted
    assert!(matches!(
        dex.swap_exact_in(ALICE, &vec![TOKEN_A, TOKEN_B], 100, 1_000_000),
        Err(ErrorKind::Slippage)
    ));
    assert_eq!(dex.pools.get(key).unwrap().total_reserves, reserves_before);
    assert_eq!(dex.get_deposit(ALICE, TOKEN_A).unwrap(), bal_a);
}

#[test]
fn swap_errors() {
    let mut dex = fresh_dex();
    // no pool yet
    assert!(matches!(
        dex.swap_exact_in(ALICE, &vec![TOKEN_A, TOKEN_B], 100, 1),
        Err(ErrorKind::PoolNotRegistered)
    ));
    assert!(matches!(
        dex.swap_exact_in(ALICE, &vec![TOKEN_A], 100, 1),
        Err(ErrorKind::AtLeastOneSwap)
    ));
    let init = PositionInit::new_full_range(1, 1000, 1, 1000);
    dex.open_position(ALICE, TOKEN_A, TOKEN_B, 1, &init).unwrap();
    // slippage: demand more than possible
    assert!(matches!(
        dex.swap_exact_in(ALICE, &vec![TOKEN_A, TOKEN_B], 100, 1_000_000),
        Err(ErrorKind::Slippage)
    ));
}

#[test]
fn protocol_fee_accrues_and_is_withdrawable() {
    let mut dex = fresh_dex();
    dex.register_account(0).unwrap();
    dex.register_tokens(0, &vec![TOKEN_A, TOKEN_B]).unwrap();
    // the highest fee level makes the protocol share visible in whole units
    let init = PositionInit::new_full_range(1, 100_000, 1, 100_000);
    dex.open_position(ALICE, TOKEN_A, TOKEN_B, 128, &init).unwrap();
    dex.swap_exact_in(ALICE, &vec![TOKEN_A, TOKEN_B], 10_000, 1).unwrap();
    let (p0, p1) = dex.withdraw_protocol_fee(0, TOKEN_A, TOKEN_B).unwrap();
    // something above the LP share remains for the protocol
    assert!(p0 > 0 || p1 > 0);
    assert!(matches!(
        dex.withdraw_protocol_fee(ALICE, TOKEN_A, TOKEN_B),
        Err(ErrorKind::PermissionDenied)
    ));
}

#[test]
fn batched_actions_chain_swaps() {
    let mut dex = fresh_dex();
    let init = PositionInit::new_full_range(1, 100_000, 1, 100_000);
    dex.open_position(ALICE, TOKEN_A, TOKEN_B, 1, &init).unwrap();
    let init2 = PositionInit::new_full_range(1, 100_000, 1, 100_000);
    dex.open_position(ALICE, TOKEN_B, TOKEN_C, 1, &init2).unwrap();
    let actions = vec![
        Action::SwapExactIn(SwapAction {
            token_in: TOKEN_A,
            token_out: TOKEN_B,
            amount: Some(100),
            amount_limit: 1,
        }),
        Action::SwapExactIn(SwapAction {
            token_in: TOKEN_B,
            token_out: TOKEN_C,
            amount: None,
            amount_limit: 1,
        }),
    ];
    let results = dex.execute_actions(ALICE, actions).unwrap();
    assert_eq!(results.len(), 2);
    match (&results[0], &results[1]) {
        (ActionResult::SwapExactIn(first), ActionResult::SwapExactIn(second)) => {
            assert!(*first < 100);
            assert!(*second < *first);
        },
        _ => panic!("unexpected action results"),
    }
}

#[test]
fn multiple_path_swaps_combine_outputs() {
    let mut dex = fresh_dex();
    let init = PositionInit::new_full_range(1, 100_000, 1, 100_000);
    dex.open_position(ALICE, TOKEN_A, TOKEN_B, 1, &init).unwrap();
    let init2 = PositionInit::new_full_range(1, 100_000, 1, 100_000);
    dex.open_position(ALICE, TOKEN_A, TOKEN_C, 1, &init2).unwrap();
    let paths = vec![
        Path { tokens: vec![TOKEN_A, TOKEN_B], amount: 100 },
        Path { tokens: vec![TOKEN_A, TOKEN_C], amount: 200 },
    ];
    let pairs = dex.multiple_path_swap_exact_in(ALICE, &paths, 1).unwrap();
    assert_eq!(pairs.len(), 2);
    assert_eq!(pairs[0].0, 100);
    assert_eq!(pairs[1].0, 200);
    assert!(pairs[0].1 > 0 && pairs[1].1 > 0);
    // demanding more than both outputs together is slippage
    assert!(matches!(
        dex.multiple_path_swap_exact_in(
            ALICE,
            &vec![Path { tokens: vec![TOKEN_A, TOKEN_B], amount: 10 }],
            1_000_000
        ),
        Err(ErrorKind::Slippage)
    ));
    let pairs_out = dex
        .multiple_path_swap_exact_out(
            ALICE,
            &vec![Path { tokens: vec![TOKEN_A, TOKEN_B], amount: 50 }],
            10_000,
        )
        .unwrap();
    assert_eq!(pairs_out[0].1, 50);
    assert!(pairs_out[0].0 > 50);
}

#[test]
fn path_liquidity_cases() {
    let mut dex = fresh_dex();
    let init = PositionInit::new_full_range(1, 100_000, 1, 100_000);
    dex.open_position(ALICE, TOKEN_A, TOKEN_B, 1, &init).unwrap();
    let init2 = PositionInit::new_full_range(1, 100_000, 1, 100_000);
    dex.open_position(ALICE, TOKEN_B, TOKEN_C, 1, &init2).unwrap();
    let two = dex.calculate_path_liquidity(&vec![TOKEN_A, TOKEN_B]).unwrap();
    assert!(!two.is_zero());
    let three = dex
        .calculate_path_liquidity(&vec![TOKEN_A, TOKEN_B, TOKEN_C])
        .unwrap();
    assert!(!three.is_zero());
    assert!(matches!(
        dex.calculate_path_liquidity(&vec![TOKEN_A]),
        Err(ErrorKind::InvalidParams)
    ));
}

#[test]
fn close_requires_ownership() {
    let mut dex = fresh_dex();
    dex.register_account(BOB).unwrap();
    let init = PositionInit::new_full_range(1, 1000, 1, 1000);
    let (id, _, _, _) = dex.open_position(ALICE, TOKEN_A, TOKEN_B, 1, &init).unwrap();
    assert!(matches!(
        dex.close_position(BOB, id),
        Err(ErrorKind::NotYourPosition)
    ));
    assert!(matches!(
        dex.close_position(ALICE, 999),
        Err(ErrorKind::PositionDoesNotExist)
    ));
    dex.close_position(ALICE, id).unwrap();
}
