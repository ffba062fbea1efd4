//! The escrow ledger on its own: independent per-tag accounting, exact
//! error conditions, and atomicity of rejected operations.

use bnft::ledger::Ledger;
use bnft::types::{make_key, LedgerError};

#[test]
fn lock_moves_free_into_escrow() {
    let mut l = Ledger::new();
    l.deposit(1, 100).unwrap();
    let tag = make_key(9, 0);
    l.lock(1, 60, tag).unwrap();
    assert_eq!(l.free_balance(1), 40);
    assert_eq!(l.locked_amount(tag), 60);
}

#[test]
fn unlock_may_credit_another_account() {
    let mut l = Ledger::new();
    l.deposit(1, 100).unwrap();
    let tag = make_key(9, 0);
    l.lock(1, 60, tag).unwrap();
    l.unlock(2, 60, tag).unwrap();
    assert_eq!(l.free_balance(1), 40);
    assert_eq!(l.free_balance(2), 60);
    assert_eq!(l.locked_amount(tag), 0);
}

#[test]
fn tags_are_accounted_independently() {
    let mut l = Ledger::new();
    l.deposit(1, 100).unwrap();
    let t1 = make_key(9, 0);
    let t2 = make_key(9, 1);
    l.lock(1, 30, t1).unwrap();
    l.lock(1, 50, t2).unwrap();
    assert_eq!(l.locked_amount(t1), 30);
    assert_eq!(l.locked_amount(t2), 50);
    l.unlock(1, 50, t2).unwrap();
    assert_eq!(l.locked_amount(t1), 30);
    assert_eq!(l.locked_amount(t2), 0);
    assert_eq!(l.free_balance(1), 70);
}

#[test]
fn lock_rejects_insufficient_funds() {
    let mut l = Ledger::new();
    l.deposit(1, 10).unwrap();
    let tag = make_key(9, 0);
    assert_eq!(l.lock(1, 11, tag), Err(LedgerError::InsufficientFunds));
    assert_eq!(l.free_balance(1), 10);
    assert_eq!(l.locked_amount(tag), 0);
}

#[test]
fn unlock_rejects_empty_tag() {
    let mut l = Ledger::new();
    let tag = make_key(9, 0);
    assert_eq!(l.unlock(1, 5, tag), Err(LedgerError::TagMismatch));
}

#[test]
fn unlock_rejects_short_tag() {
    let mut l = Ledger::new();
    l.deposit(1, 100).unwrap();
    let tag = make_key(9, 0);
    l.lock(1, 50, tag).unwrap();
    assert_eq!(l.unlock(1, 60, tag), Err(LedgerError::InsufficientLocked));
    assert_eq!(l.locked_amount(tag), 50);
    assert_eq!(l.free_balance(1), 50);
}

#[test]
fn lock_rejects_escrow_overflow() {
    let mut l = Ledger::new();
    l.deposit(1, u64::MAX).unwrap();
    l.deposit(2, 1).unwrap();
    let tag = make_key(9, 0);
    l.lock(1, u64::MAX, tag).unwrap();
    assert_eq!(l.lock(2, 1, tag), Err(LedgerError::BalanceOverflow));
    assert_eq!(l.free_balance(2), 1);
    assert_eq!(l.locked_amount(tag), u64::MAX);
}

#[test]
fn unlock_rejects_credit_overflow() {
    let mut l = Ledger::new();
    l.deposit(1, 100).unwrap();
    l.deposit(2, u64::MAX - 10).unwrap();
    let tag = make_key(9, 0);
    l.lock(1, 50, tag).unwrap();
    assert_eq!(l.unlock(2, 50, tag), Err(LedgerError::BalanceOverflow));
    assert_eq!(l.locked_amount(tag), 50);
    assert_eq!(l.free_balance(2), u64::MAX - 10);
}

#[test]
fn deposit_rejects_overflow() {
    let mut l = Ledger::new();
    l.deposit(1, u64::MAX - 1).unwrap();
    assert_eq!(l.deposit(1, 2), Err(LedgerError::BalanceOverflow));
    assert_eq!(l.free_balance(1), u64::MAX - 1);
    l.deposit(1, 1).unwrap();
    assert_eq!(l.free_balance(1), u64::MAX);
}
