use payments_engine::decimal::Decimal;
use payments_engine::engine::account::AccountError;
use payments_engine::engine::types::{Account, Amount};

fn amount(v: Decimal) -> Amount {
    Amount::from_dec(v)
}

fn account(client_id: u16) -> Account {
    Account {
        client_id,
        ..Account::default()
    }
}

#[test]
fn deposit_and_withdrawal_update_balances() {
    let mut acc = account(1);

    acc.apply_deposit(amount(Decimal::new(25, 1)))
        .expect("deposit should succeed");
    acc.try_apply_withdrawal(amount(Decimal::new(10, 1)))
        .expect("withdrawal should succeed");

    assert_eq!(acc.available, amount(Decimal::new(15, 1)));
    assert_eq!(acc.held, amount(Decimal::new(0, 0)));
    assert_eq!(acc.total, amount(Decimal::new(15, 1)));
    assert!(!acc.locked);
}

#[test]
fn withdrawal_fails_when_funds_are_insufficient() {
    let mut acc = account(1);

    acc.apply_deposit(amount(Decimal::new(10, 1)))
        .expect("deposit should succeed");

    let result = acc.try_apply_withdrawal(amount(Decimal::new(15, 1)));

    assert!(matches!(
        result,
        Err(AccountError::InsufficientAvailableFunds { .. })
    ));
    assert_eq!(acc.available, amount(Decimal::new(10, 1)));
    assert_eq!(acc.total, amount(Decimal::new(10, 1)));
}

#[test]
fn dispute_then_resolve_moves_funds_between_available_and_held() {
    let mut acc = account(1);

    acc.apply_deposit(amount(Decimal::new(20, 1)))
        .expect("deposit should succeed");
    acc.apply_dispute(amount(Decimal::new(5, 1)))
        .expect("dispute should succeed");

    assert_eq!(acc.available, amount(Decimal::new(15, 1)));
    assert_eq!(acc.held, amount(Decimal::new(5, 1)));
    assert_eq!(acc.total, amount(Decimal::new(20, 1)));

    acc.apply_resolve(amount(Decimal::new(5, 1)))
        .expect("resolve should succeed");

    assert_eq!(acc.available, amount(Decimal::new(20, 1)));
    assert_eq!(acc.held, amount(Decimal::new(0, 0)));
    assert_eq!(acc.total, amount(Decimal::new(20, 1)));
}

#[test]
fn chargeback_locks_account_and_blocks_future_operations() {
    let mut acc = account(1);

    acc.apply_deposit(amount(Decimal::new(20, 1)))
        .expect("deposit should succeed");
    acc.apply_dispute(amount(Decimal::new(20, 1)))
        .expect("dispute should succeed");
    acc.apply_chargeback(amount(Decimal::new(20, 1)))
        .expect("chargeback should succeed");

    assert!(acc.locked);
    assert_eq!(acc.available, amount(Decimal::new(0, 0)));
    assert_eq!(acc.held, amount(Decimal::new(0, 0)));
    assert_eq!(acc.total, amount(Decimal::new(0, 0)));

    let result = acc.apply_deposit(amount(Decimal::new(10, 1)));
    assert!(matches!(result, Err(AccountError::AccountLocked)));
}

#[test]
fn resolve_more_than_held_is_refused() {
    let mut acc = account(4);
    acc.apply_deposit(Amount(30_000)).unwrap();
    acc.apply_dispute(Amount(10_000)).unwrap();
    let before = acc;
    let result = acc.apply_resolve(Amount(20_000));
    assert_eq!(
        result,
        Err(AccountError::InsufficientHeldFunds {
            requested: Amount(20_000),
            held: Amount(10_000)
        })
    );
    assert_eq!(acc, before);
    let result = acc.apply_chargeback(Amount(20_000));
    assert_eq!(
        result,
        Err(AccountError::InsufficientHeldFunds {
            requested: Amount(20_000),
            held: Amount(10_000)
        })
    );
    assert_eq!(acc, before);
}

#[test]
fn insufficient_funds_error_reports_request_and_balance() {
    let mut acc = account(2);
    acc.apply_deposit(Amount(5)).unwrap();
    assert_eq!(
        acc.try_apply_withdrawal(Amount(6)),
        Err(AccountError::InsufficientAvailableFunds {
            requested: Amount(6),
            available: Amount(5)
        })
    );
}

#[test]
fn locked_account_refuses_every_change() {
    let mut acc = account(3);
    acc.apply_deposit(Amount(100)).unwrap();
    acc.apply_dispute(Amount(40)).unwrap();
    acc.apply_chargeback(Amount(40)).unwrap();
    let locked = acc;
    assert_eq!(locked.total, Amount(60));
    assert_eq!(acc.apply_deposit(Amount(1)), Err(AccountError::AccountLocked));
    assert_eq!(acc.try_apply_withdrawal(Amount(1)), Err(AccountError::AccountLocked));
    assert_eq!(acc.apply_dispute(Amount(1)), Err(AccountError::AccountLocked));
    assert_eq!(acc.apply_resolve(Amount(1)), Err(AccountError::AccountLocked));
    assert_eq!(acc.apply_chargeback(Amount(1)), Err(AccountError::AccountLocked));
    assert_eq!(acc, locked);
}

#[test]
fn balance_stays_total_of_available_and_held() {
    let mut acc = account(5);
    acc.apply_deposit(Amount(70)).unwrap();
    acc.apply_dispute(Amount(50)).unwrap();
    acc.try_apply_withdrawal(Amount(10)).unwrap();
    acc.apply_resolve(Amount(20)).unwrap();
    assert_eq!(*acc.total, *acc.available + *acc.held);
    acc.apply_chargeback(Amount(30)).unwrap();
    assert_eq!(*acc.total, *acc.available + *acc.held);
    assert_eq!(*acc.total, 30);
}

#[test]
fn dispute_then_resolve_restores_account() {
    let mut acc = account(6);
    acc.apply_deposit(Amount(12_345)).unwrap();
    let before = acc;
    acc.apply_dispute(Amount(2_345)).unwrap();
    acc.apply_resolve(Amount(2_345)).unwrap();
    assert_eq!(acc, before);
}

#[test]
fn deposit_then_withdrawal_restores_account() {
    let mut acc = account(7);
    acc.apply_deposit(Amount(500)).unwrap();
    let before = acc;
    acc.apply_deposit(Amount(250)).unwrap();
    acc.try_apply_withdrawal(Amount(250)).unwrap();
    assert_eq!(acc, before);
}
