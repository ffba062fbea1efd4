//! Every error kind, with an input that produces it, and the guarantee
//! that a rejected operation changes nothing.

use bnft::registry::Registry;
use bnft::types::Error;

const OWNER: u32 = 1;
const FUNDER: u32 = 2;
const AGENT: u32 = 3;
const VERIFIER: u32 = 4;

#[test]
fn init_rejects_non_owner() {
    let mut r = Registry::new(OWNER, 100);
    assert_eq!(r.init(FUNDER), Err(Error::Unauthorized));
    assert!(!r.is_initialized());
    assert_eq!(r.free_balance(OWNER), 0);
}

#[test]
fn init_is_single_shot() {
    let mut r = Registry::new(OWNER, 100);
    r.init(OWNER).unwrap();
    assert_eq!(r.init(OWNER), Err(Error::InvalidState));
    // The balance was credited exactly once.
    assert_eq!(r.free_balance(OWNER), 100);
}

#[test]
fn init_rejects_overflowing_supply() {
    let mut r = Registry::new(OWNER, u64::MAX);
    r.deposit(OWNER, 1).unwrap();
    assert_eq!(r.init(OWNER), Err(Error::ArithmeticOverflow));
    assert!(!r.is_initialized());
    assert_eq!(r.free_balance(OWNER), 1);
}

#[test]
fn create_rejects_zero_supply() {
    let mut r = Registry::new(OWNER, 0);
    assert_eq!(
        r.create_class(OWNER, 1, 0, 2, 3, 0, 0, 0, 10, 4, 5, 10, 0),
        Err(Error::InvalidState)
    );
    assert_eq!(r.next_class_id(), 0);
}

#[test]
fn create_rejects_expiry_overflow() {
    let mut r = Registry::new(OWNER, 0);
    assert_eq!(
        r.create_class(OWNER, 1, 1, 2, 3, 0, 0, 0, u64::MAX, 4, 5, 10, 1),
        Err(Error::ArithmeticOverflow)
    );
    assert_eq!(r.next_class_id(), 0);
    assert!(r.get_class(0).is_none());
}

#[test]
fn fund_rejects_unknown_class() {
    let mut r = Registry::new(OWNER, 0);
    assert_eq!(r.fund_class(FUNDER, 0, 0), Err(Error::NotFound));
}

#[test]
fn fund_rejects_deadline_overflow() {
    let mut r = Registry::new(OWNER, 0);
    // created_on + funding_period overflows.
    let id = r.create_class(OWNER, 1, 1, 2, 3, 0, 0, 0, 10, 4, 5, u64::MAX, 1).unwrap();
    assert_eq!(r.fund_class(FUNDER, id, 2), Err(Error::ArithmeticOverflow));
}

#[test]
fn fund_rejects_bounty_overflow() {
    let mut r = Registry::new(OWNER, 0);
    r.deposit(FUNDER, 1_000).unwrap();
    // transfer_bounty * total_supply overflows.
    let id = r.create_class(OWNER, 1, 2, 2, 3, u64::MAX, 0, 0, 10, 4, 5, 100, 0).unwrap();
    assert_eq!(r.fund_class(FUNDER, id, 0), Err(Error::ArithmeticOverflow));
    assert!(r.get_class(id).map(|c| !c.funded).unwrap());
}

#[test]
fn fund_rejects_poor_funder() {
    let mut r = Registry::new(OWNER, 0);
    r.deposit(FUNDER, 29).unwrap();
    // The pool is (10 + 5) * 2 = 30, one more than the funder holds.
    let id = r.create_class(OWNER, 1, 2, 2, 3, 10, 5, 100, 10, 4, 5, 100, 0).unwrap();
    assert_eq!(r.fund_class(FUNDER, id, 0), Err(Error::EscrowFailure));
    assert_eq!(r.free_balance(FUNDER), 29);
    assert_eq!(r.locked_amount(FUNDER, id), 0);
    assert!(r.get_class(id).map(|c| !c.funded).unwrap());
    assert_eq!(r.funder_of(id), None);
}

#[test]
fn issue_rejects_unknown_class() {
    let mut r = Registry::new(OWNER, 0);
    assert_eq!(r.issue(AGENT, 5, 100), Err(Error::NotFound));
}

#[test]
fn issue_rejects_unfunded_class() {
    let mut r = Registry::new(OWNER, 0);
    let id = r.create_class(OWNER, 1, 2, 2, 3, 10, 5, 100, 10, 4, 5, 100, 0).unwrap();
    assert_eq!(r.issue(AGENT, id, 100), Err(Error::InvalidState));
    assert!(r.get_pending(100, id).is_none());
}

#[test]
fn issue_rejects_poor_agent() {
    let mut r = Registry::new(OWNER, 0);
    r.deposit(FUNDER, 1_000).unwrap();
    r.deposit(AGENT, 99).unwrap();
    let id = r.create_class(OWNER, 1, 2, 2, 3, 10, 5, 100, 10, 4, 5, 100, 0).unwrap();
    r.fund_class(FUNDER, id, 0).unwrap();
    assert_eq!(r.issue(AGENT, id, 100), Err(Error::EscrowFailure));
    assert_eq!(r.free_balance(AGENT), 99);
    assert!(r.get_pending(100, id).is_none());
    assert_eq!(r.remaining_supply(id), Some(2));
    assert_eq!(r.owned_count_of(AGENT), 0);
}

#[test]
fn verify_rejects_unknown_badge() {
    let mut r = Registry::new(OWNER, 0);
    assert_eq!(
        r.verify_and_settle(VERIFIER, AGENT, 0, 100),
        Err(Error::NotFound)
    );
}

#[test]
fn verify_rejects_wrong_agent() {
    let mut r = Registry::new(OWNER, 0);
    r.deposit(FUNDER, 1_000).unwrap();
    r.deposit(AGENT, 1_000).unwrap();
    let id = r.create_class(OWNER, 1, 2, 2, 3, 10, 5, 100, 10, 4, 5, 100, 0).unwrap();
    r.fund_class(FUNDER, id, 0).unwrap();
    r.issue(AGENT, id, 100).unwrap();
    let locked = r.locked_amount(100, id);
    assert_eq!(
        r.verify_and_settle(VERIFIER, FUNDER, id, 100),
        Err(Error::Unauthorized)
    );
    // Nothing was settled.
    assert_eq!(r.locked_amount(100, id), locked);
    assert!(r.get_pending(100, id).is_some());
    assert_eq!(r.owned_count_of(AGENT), 1);
}

#[test]
fn deposit_rejects_balance_overflow() {
    let mut r = Registry::new(OWNER, 0);
    r.deposit(AGENT, u64::MAX).unwrap();
    assert_eq!(r.deposit(AGENT, 1), Err(Error::ArithmeticOverflow));
    assert_eq!(r.free_balance(AGENT), u64::MAX);
}
