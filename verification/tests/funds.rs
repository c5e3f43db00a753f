use polkaads::balances::{Balances, BalanceError};

#[test]
fn untouched_accounts_hold_zero() {
    let balances = Balances::new();
    assert_eq!(balances.free_balance(3), 0);
    assert_eq!(balances.reserved_balance(3), 0);
}

#[test]
fn reserve_moves_funds_out_of_the_spendable_side() {
    let mut balances = Balances::new();
    balances.deposit_free(1, 100);
    assert_eq!(balances.reserve(1, 60), Ok(()));
    assert_eq!(balances.free_balance(1), 40);
    assert_eq!(balances.reserved_balance(1), 60);
}

#[test]
fn reserve_beyond_the_spendable_side_fails() {
    let mut balances = Balances::new();
    balances.deposit_free(1, 100);
    assert_eq!(balances.reserve(1, 101), Err(BalanceError::InsufficientBalance));
    assert_eq!(balances.free_balance(1), 100);
    assert_eq!(balances.reserved_balance(1), 0);
}

#[test]
fn unreserve_returns_what_could_not_be_released() {
    let mut balances = Balances::new();
    balances.deposit_free(1, 100);
    assert_eq!(balances.reserve(1, 60), Ok(()));
    assert_eq!(balances.unreserve(1, 80), 20);
    assert_eq!(balances.free_balance(1), 100);
    assert_eq!(balances.reserved_balance(1), 0);
    assert_eq!(balances.unreserve(1, 5), 5);
}
