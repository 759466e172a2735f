use mini_ledger::balances::{Pallet, TransferError};

fn s(x: &str) -> String {
    x.to_string()
}

#[test]
fn init_balances() {
    let mut balances = Pallet::new();

    assert_eq!(balances.balance(&"alice".to_string()), 0);
    balances.set_balance(&"alice".to_string(), 100);
    assert_eq!(balances.balance(&"alice".to_string()), 100);
    assert_eq!(balances.balance(&"bob".to_string()), 0);
}

#[test]
fn transfer_balance() {
    let mut balances = Pallet::new();

    assert_eq!(
        balances.transfer("alice".to_string(), "bob".to_string(), 10).map_err(|e| e.as_str()),
        Err("Not enough funds.")
    );

    balances.set_balance(&"alice".to_string(), 10);
    assert_eq!(balances.transfer("alice".to_string(), "bob".to_string(), 10), Ok(()));
    assert_eq!(balances.balance(&"alice".to_string()), 0);
    assert_eq!(balances.balance(&"bob".to_string()), 10);
    assert_eq!(
        balances.transfer("alice".to_string(), "bob".to_string(), 10).map_err(|e| e.as_str()),
        Err("Not enough funds.")
    );
}

#[test]
fn fresh_ledger_is_zero_everywhere() {
    let balances = Pallet::new();
    assert_eq!(balances.balance(&s("alice")), 0);
    assert_eq!(balances.balance(&s("")), 0);
    assert_eq!(balances.balance(&s("zed")), 0);
}

#[test]
fn set_balance_overwrites() {
    let mut balances = Pallet::new();
    balances.set_balance(&s("alice"), 100);
    balances.set_balance(&s("alice"), 7);
    assert_eq!(balances.balance(&s("alice")), 7);
    balances.set_balance(&s("alice"), u128::MAX);
    assert_eq!(balances.balance(&s("alice")), u128::MAX);
    balances.set_balance(&s("alice"), 0);
    assert_eq!(balances.balance(&s("alice")), 0);
}

#[test]
fn set_balance_leaves_others() {
    let mut balances = Pallet::new();
    balances.set_balance(&s("alice"), 5);
    balances.set_balance(&s("bob"), 9);
    balances.set_balance(&s("alice"), 6);
    assert_eq!(balances.balance(&s("bob")), 9);
    assert_eq!(balances.balance(&s("alice")), 6);
}

#[test]
fn transfer_conserves_value() {
    let mut balances = Pallet::new();
    balances.set_balance(&s("alice"), 100);
    balances.set_balance(&s("bob"), 50);
    assert_eq!(balances.transfer(s("alice"), s("bob"), 30), Ok(()));
    assert_eq!(balances.balance(&s("alice")), 70);
    assert_eq!(balances.balance(&s("bob")), 80);
    assert_eq!(balances.balance(&s("alice")) + balances.balance(&s("bob")), 150);
}

#[test]
fn transfer_whole_balance_and_zero_amount() {
    let mut balances = Pallet::new();
    balances.set_balance(&s("alice"), 40);
    assert_eq!(balances.transfer(s("alice"), s("bob"), 0), Ok(()));
    assert_eq!(balances.balance(&s("alice")), 40);
    assert_eq!(balances.balance(&s("bob")), 0);
    assert_eq!(balances.transfer(s("alice"), s("bob"), 40), Ok(()));
    assert_eq!(balances.balance(&s("alice")), 0);
    assert_eq!(balances.balance(&s("bob")), 40);
}

#[test]
fn self_transfer_keeps_balance() {
    let mut balances = Pallet::new();
    balances.set_balance(&s("alice"), 100);
    assert_eq!(balances.transfer(s("alice"), s("alice"), 60), Ok(()));
    assert_eq!(balances.balance(&s("alice")), 100);
    assert_eq!(balances.transfer(s("alice"), s("alice"), 100), Ok(()));
    assert_eq!(balances.balance(&s("alice")), 100);
}

#[test]
fn self_transfer_at_the_maximum() {
    let mut balances = Pallet::new();
    balances.set_balance(&s("alice"), u128::MAX);
    assert_eq!(balances.transfer(s("alice"), s("alice"), u128::MAX), Ok(()));
    assert_eq!(balances.balance(&s("alice")), u128::MAX);
}

#[test]
fn self_transfer_over_balance_is_refused() {
    let mut balances = Pallet::new();
    balances.set_balance(&s("alice"), 3);
    assert_eq!(
        balances.transfer(s("alice"), s("alice"), 4),
        Err(TransferError::InsufficientFunds)
    );
    assert_eq!(balances.balance(&s("alice")), 3);
}

#[test]
fn underflow_leaves_balances() {
    let mut balances = Pallet::new();
    balances.set_balance(&s("alice"), 5);
    balances.set_balance(&s("bob"), 8);
    assert_eq!(
        balances.transfer(s("alice"), s("bob"), 6),
        Err(TransferError::InsufficientFunds)
    );
    assert_eq!(balances.balance(&s("alice")), 5);
    assert_eq!(balances.balance(&s("bob")), 8);
}

#[test]
fn overflow_is_refused_without_debit() {
    let mut balances = Pallet::new();
    balances.set_balance(&s("alice"), 10);
    balances.set_balance(&s("bob"), u128::MAX - 5);
    assert_eq!(balances.transfer(s("alice"), s("bob"), 6), Err(TransferError::Overflow));
    assert_eq!(balances.balance(&s("alice")), 10);
    assert_eq!(balances.balance(&s("bob")), u128::MAX - 5);
    assert_eq!(balances.transfer(s("alice"), s("bob"), 5), Ok(()));
    assert_eq!(balances.balance(&s("alice")), 5);
    assert_eq!(balances.balance(&s("bob")), u128::MAX);
}

#[test]
fn insufficient_funds_checked_before_overflow() {
    let mut balances = Pallet::new();
    balances.set_balance(&s("alice"), 1);
    balances.set_balance(&s("bob"), u128::MAX);
    assert_eq!(
        balances.transfer(s("alice"), s("bob"), 2),
        Err(TransferError::InsufficientFunds)
    );
}

#[test]
fn insufficient_funds_on_empty_ledger() {
    let mut balances = Pallet::new();
    assert_eq!(
        balances.transfer(s("alice"), s("bob"), 10),
        Err(TransferError::InsufficientFunds)
    );
    assert_eq!(balances.balance(&s("alice")), 0);
    assert_eq!(balances.balance(&s("bob")), 0);
}

#[test]
fn error_messages() {
    assert_eq!(TransferError::InsufficientFunds.as_str(), "Not enough funds.");
    assert_eq!(TransferError::Overflow.as_str(), "Overflow");
}
