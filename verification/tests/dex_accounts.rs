use veax_dex::dex::{Dex, fee_level_from_rate};
use veax_dex::errors::ErrorKind;

const ALICE: u64 = 1;
const TOKEN: u64 = 7;

#[test]
fn account_registration_lifecycle() {
    let mut dex = Dex::new(0, 0).unwrap();
    dex.register_account(ALICE).unwrap();
    dex.register_tokens(ALICE, &vec![TOKEN]).unwrap();
    dex.deposit(ALICE, TOKEN, 7).unwrap();
    // registration is idempotent: registering again succeeds and keeps
    // the account exactly as it was
    dex.register_account(ALICE).unwrap();
    assert_eq!(dex.get_deposit(ALICE, TOKEN).unwrap(), 7);
    dex.withdraw(ALICE, TOKEN, 0).unwrap();
    dex.exchange_callback_post_withdraw(ALICE, TOKEN, 7, true).unwrap();
    assert_eq!(dex.unregister_account(ALICE).unwrap(), Some(()));
    assert!(matches!(
        dex.get_deposit(ALICE, TOKEN),
        Err(ErrorKind::AccountNotRegistered)
    ));
    // unregistering a missing account is a successful no-op
    assert_eq!(dex.unregister_account(ALICE).unwrap(), None);
}

#[test]
fn unregister_refuses_held_tokens() {
    let mut dex = Dex::new(0, 0).unwrap();
    dex.register_account(ALICE).unwrap();
    dex.register_tokens(ALICE, &vec![TOKEN]).unwrap();
    dex.deposit(ALICE, TOKEN, 5).unwrap();
    assert!(matches!(
        dex.unregister_account(ALICE),
        Err(ErrorKind::TokensStorageNotEmpty)
    ));
    assert!(matches!(
        dex.unregister_tokens(ALICE, &vec![TOKEN]),
        Err(ErrorKind::NonZeroTokenBalance)
    ));
}

#[test]
fn deposit_and_withdraw_bookkeeping() {
    let mut dex = Dex::new(0, 0).unwrap();
    dex.register_account(ALICE).unwrap();
    dex.register_tokens(ALICE, &vec![TOKEN]).unwrap();
    assert_eq!(dex.deposit(ALICE, TOKEN, 100).unwrap(), 100);
    assert_eq!(dex.deposit(ALICE, TOKEN, 50).unwrap(), 150);
    assert!(matches!(
        dex.deposit(ALICE, 999, 1),
        Err(ErrorKind::TokenNotRegistered)
    ));
    assert!(matches!(
        dex.deposit(ALICE, TOKEN, u128::MAX),
        Err(ErrorKind::DepositWouldOverflow)
    ));
    // start a withdrawal: the balance drops and the transfer is tracked
    let sent = dex.withdraw(ALICE, TOKEN, 40).unwrap();
    assert_eq!(sent, Some(40));
    assert_eq!(dex.get_deposit(ALICE, TOKEN).unwrap(), 110);
    // while in flight, the account and the token are pinned
    assert!(matches!(
        dex.unregister_account(ALICE),
        Err(ErrorKind::WithdrawInProgress)
    ));
    assert!(matches!(
        dex.unregister_tokens(ALICE, &vec![TOKEN]),
        Err(ErrorKind::WithdrawInProgress)
    ));
    // a failed transfer restores the balance
    dex.exchange_callback_post_withdraw(ALICE, TOKEN, 40, false).unwrap();
    assert_eq!(dex.get_deposit(ALICE, TOKEN).unwrap(), 150);
    // a successful transfer does not
    let sent2 = dex.withdraw(ALICE, TOKEN, 0).unwrap();
    assert_eq!(sent2, Some(150));
    dex.exchange_callback_post_withdraw(ALICE, TOKEN, 150, true).unwrap();
    assert_eq!(dex.get_deposit(ALICE, TOKEN).unwrap(), 0);
    // withdrawing a zero balance is a no-op
    assert_eq!(dex.withdraw(ALICE, TOKEN, 0).unwrap(), None);
}

#[test]
fn governance_controls() {
    let mut dex = Dex::new(0, 0).unwrap();
    dex.register_account(ALICE).unwrap();
    // only the owner or a guard may suspend
    assert!(matches!(
        dex.suspend_payable_api(ALICE),
        Err(ErrorKind::PermissionDenied)
    ));
    // resuming while live is a phase error
    assert!(matches!(
        dex.resume_payable_api(0),
        Err(ErrorKind::GuardChangeStateDenied)
    ));
    dex.add_guard_accounts(0, &vec![ALICE]).unwrap();
    dex.suspend_payable_api(ALICE).unwrap();
    assert!(matches!(
        dex.deposit(ALICE, TOKEN, 1),
        Err(ErrorKind::PayableAPISuspended)
    ));
    dex.resume_payable_api(0).unwrap();
    // fee fraction is owner-only and bounded
    assert!(matches!(
        dex.set_protocol_fee_fraction(ALICE, 100),
        Err(ErrorKind::PermissionDenied)
    ));
    assert!(matches!(
        dex.set_protocol_fee_fraction(0, 5001),
        Err(ErrorKind::IllegalFee)
    ));
    assert!(matches!(
        dex.set_protocol_fee_fraction(0, 0),
        Err(ErrorKind::IllegalFee)
    ));
    dex.set_protocol_fee_fraction(0, 2000).unwrap();
    assert_eq!(dex.protocol_fee_fraction(), 2000);
    // verified tokens
    dex.add_verified_tokens(0, &vec![TOKEN]).unwrap();
    assert_eq!(dex.get_verified_tokens(), vec![TOKEN]);
    dex.remove_verified_tokens(0, &vec![TOKEN]).unwrap();
    assert_eq!(dex.get_verified_tokens().len(), 0);
}

#[test]
fn fee_levels_from_rates() {
    assert_eq!(fee_level_from_rate(1).unwrap(), 0);
    assert_eq!(fee_level_from_rate(128).unwrap(), 7);
    assert!(matches!(fee_level_from_rate(3), Err(ErrorKind::IllegalFee)));
    assert!(matches!(fee_level_from_rate(0), Err(ErrorKind::IllegalFee)));
}

#[test]
fn error_descriptions_are_distinct_for_key_kinds() {
    assert_ne!(
        ErrorKind::Slippage.describe(),
        ErrorKind::InsufficientLiquidity.describe()
    );
    assert_eq!(ErrorKind::WrongRatio.describe(), "wrong ratio");
}
