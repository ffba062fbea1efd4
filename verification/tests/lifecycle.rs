//! The badge lifecycle end to end: create, fund, issue, verify, settle.

use bnft::registry::Registry;
use bnft::types::{BadgeId, Error, Event};

const OWNER: u32 = 1;
const FUNDER: u32 = 2;
const AGENT: u32 = 3;
const VERIFIER: u32 = 4;

/// A registry with an initialized owner and endowed funder and agent, plus
/// one funded class created at time 0 with funding period 100.
fn setup_funded_class(total_supply: u64, tb: u64, vb: u64, stake: u64) -> (Registry, u32) {
    let mut r = Registry::new(OWNER, 1_000_000);
    r.init(OWNER).unwrap();
    r.deposit(FUNDER, 1_000_000).unwrap();
    r.deposit(AGENT, 1_000_000).unwrap();
    let class_id = r
        .create_class(OWNER, 7, total_supply, 8, 9, tb, vb, stake, 1_000, 10, 11, 100, 0)
        .unwrap();
    r.fund_class(FUNDER, class_id, 0).unwrap();
    (r, class_id)
}

#[test]
fn end_to_end_lifecycle() {
    let mut r = Registry::new(OWNER, 1_000_000);
    r.init(OWNER).unwrap();
    r.deposit(FUNDER, 1_000).unwrap();
    r.deposit(AGENT, 1_000).unwrap();
    let class_id = r
        .create_class(OWNER, 7, 2, 8, 9, 10, 5, 100, 1_000, 10, 11, 100, 0)
        .unwrap();
    assert_eq!(class_id, 0);
    assert_eq!(r.remaining_supply(class_id), Some(2));

    let funder_before = r.free_balance(FUNDER);
    r.fund_class(FUNDER, class_id, 0).unwrap();
    // The escrowed bounty pool is (10 + 5) * 2 = 30.
    assert_eq!(funder_before - r.free_balance(FUNDER), 30);
    assert_eq!(r.locked_amount(FUNDER, class_id), 30);
    assert_eq!(r.funder_of(class_id), Some(FUNDER));

    let u1: u32 = 100;
    let u2: u32 = 101;
    let u3: u32 = 102;
    r.issue(AGENT, class_id, u1).unwrap();
    assert_eq!(r.remaining_supply(class_id), Some(1));
    assert_eq!(r.issue(AGENT, class_id, u1), Err(Error::AlreadyIssued));
    r.issue(AGENT, class_id, u2).unwrap();
    assert_eq!(r.remaining_supply(class_id), Some(0));
    assert_eq!(r.issue(AGENT, class_id, u3), Err(Error::SupplyExhausted));

    let agent_before = r.free_balance(AGENT);
    let verifier_before = r.free_balance(VERIFIER);
    r.verify_and_settle(VERIFIER, AGENT, class_id, u1).unwrap();
    // The agent gets the stake (100) plus the transfer bounty (10).
    assert_eq!(r.free_balance(AGENT) - agent_before, 110);
    // The verifier gets the verification bounty (5).
    assert_eq!(r.free_balance(VERIFIER) - verifier_before, 5);

    let v = r.get_verified(u1).unwrap();
    assert!(v.verified);
    assert_eq!(v.uri, u1);
    assert_eq!(v.class_index, class_id);
    assert!(r.get_pending(u1, class_id).is_none());
    assert!(r.get_pending(u2, class_id).is_some());
}

#[test]
fn init_credits_owner_and_registers_admin() {
    let mut r = Registry::new(OWNER, 5_000);
    assert!(!r.is_initialized());
    assert!(!r.is_admin(OWNER));
    assert_eq!(r.owner_account(), OWNER);
    assert_eq!(r.free_balance(OWNER), 0);
    r.init(OWNER).unwrap();
    assert!(r.is_initialized());
    assert!(r.is_admin(OWNER));
    assert!(!r.is_admin(FUNDER));
    assert_eq!(r.free_balance(OWNER), 5_000);
}

#[test]
fn funding_is_single_shot() {
    let (mut r, class_id) = setup_funded_class(2, 10, 5, 100);
    let funder_free = r.free_balance(FUNDER);
    let locked = r.locked_amount(FUNDER, class_id);
    // A second funding attempt fails whoever calls, and changes nothing.
    assert_eq!(r.fund_class(FUNDER, class_id, 0), Err(Error::InvalidState));
    assert_eq!(r.fund_class(AGENT, class_id, 50), Err(Error::InvalidState));
    assert_eq!(r.free_balance(FUNDER), funder_free);
    assert_eq!(r.locked_amount(FUNDER, class_id), locked);
    assert_eq!(r.funder_of(class_id), Some(FUNDER));
}

#[test]
fn funding_deadline_is_inclusive() {
    let mut r = Registry::new(OWNER, 0);
    r.init(OWNER).unwrap();
    r.deposit(FUNDER, 10_000).unwrap();
    // Both classes created at time 40 with funding period 100: deadline 140.
    let a = r.create_class(OWNER, 7, 1, 8, 9, 1, 1, 1, 500, 10, 11, 100, 40).unwrap();
    let b = r.create_class(OWNER, 7, 1, 8, 9, 1, 1, 1, 500, 10, 11, 100, 40).unwrap();
    // At the deadline moment itself funding still succeeds.
    assert_eq!(r.fund_class(FUNDER, a, 140), Ok(()));
    // One tick later it is expired.
    assert_eq!(r.fund_class(FUNDER, b, 141), Err(Error::FundingExpired));
    assert_eq!(r.funder_of(b), None);
    assert!(r.get_class(b).map(|c| !c.funded).unwrap());
}

#[test]
fn stake_escrow_matches_pending_badges() {
    let (mut r, class_id) = setup_funded_class(3, 10, 5, 100);
    let u1: u32 = 100;
    let u2: u32 = 101;
    r.issue(AGENT, class_id, u1).unwrap();
    r.issue(AGENT, class_id, u2).unwrap();
    // Exactly one stake is locked under each pending badge's tag.
    assert_eq!(r.locked_amount(u1, class_id), 100);
    assert_eq!(r.locked_amount(u2, class_id), 100);
    // Verifying releases exactly the stake (plus the transfer bounty).
    let agent_before = r.free_balance(AGENT);
    r.verify_and_settle(VERIFIER, AGENT, class_id, u1).unwrap();
    assert_eq!(r.locked_amount(u1, class_id), 0);
    assert_eq!(r.free_balance(AGENT) - agent_before, 110);
    assert_eq!(r.locked_amount(u2, class_id), 100);
    // A second settlement of the same badge is impossible.
    assert_eq!(
        r.verify_and_settle(VERIFIER, AGENT, class_id, u1),
        Err(Error::NotFound)
    );
}

#[test]
fn swap_remove_keeps_array_dense() {
    let (mut r, class_id) = setup_funded_class(3, 1, 1, 10);
    let u1: u32 = 100;
    let u2: u32 = 101;
    let u3: u32 = 102;
    r.issue(AGENT, class_id, u1).unwrap();
    r.issue(AGENT, class_id, u2).unwrap();
    r.issue(AGENT, class_id, u3).unwrap();
    assert_eq!(r.owned_count_of(AGENT), 3);
    assert_eq!(r.badge_slot(u1, class_id), Some(0));
    assert_eq!(r.badge_slot(u2, class_id), Some(1));
    assert_eq!(r.badge_slot(u3, class_id), Some(2));

    // Verify the badge at slot 0: the last element (u3) must move into
    // slot 0 and its recorded slot must now read 0.
    r.verify_and_settle(VERIFIER, AGENT, class_id, u1).unwrap();
    assert_eq!(r.owned_count_of(AGENT), 2);
    assert_eq!(
        r.owned_badge_at(AGENT, 0),
        Some(BadgeId { uri: u3, class_index: class_id })
    );
    assert_eq!(
        r.owned_badge_at(AGENT, 1),
        Some(BadgeId { uri: u2, class_index: class_id })
    );
    assert_eq!(r.owned_badge_at(AGENT, 2), None);
    assert_eq!(r.badge_slot(u3, class_id), Some(0));
    assert_eq!(r.badge_slot(u1, class_id), None);

    // Verifying the new last element only shrinks the array.
    r.verify_and_settle(VERIFIER, AGENT, class_id, u2).unwrap();
    assert_eq!(r.owned_count_of(AGENT), 1);
    assert_eq!(
        r.owned_badge_at(AGENT, 0),
        Some(BadgeId { uri: u3, class_index: class_id })
    );
    assert_eq!(r.owned_badge_at(AGENT, 1), None);
}

#[test]
fn agents_have_independent_arrays() {
    let mut r = Registry::new(OWNER, 0);
    r.init(OWNER).unwrap();
    r.deposit(FUNDER, 1_000).unwrap();
    r.deposit(AGENT, 1_000).unwrap();
    r.deposit(VERIFIER, 1_000).unwrap();
    let class_id = r
        .create_class(OWNER, 7, 4, 8, 9, 1, 1, 10, 1_000, 10, 11, 100, 0)
        .unwrap();
    r.fund_class(FUNDER, class_id, 0).unwrap();
    // VERIFIER acts as a second staking agent here.
    r.issue(AGENT, class_id, 100).unwrap();
    r.issue(VERIFIER, class_id, 101).unwrap();
    r.issue(AGENT, class_id, 102).unwrap();
    assert_eq!(r.owned_count_of(AGENT), 2);
    assert_eq!(r.owned_count_of(VERIFIER), 1);
    assert_eq!(r.owner_of(101, class_id), Some(VERIFIER));
    // Settling one agent's badge leaves the other agent's array alone.
    r.verify_and_settle(OWNER, AGENT, class_id, 100).unwrap();
    assert_eq!(r.owned_count_of(AGENT), 1);
    assert_eq!(r.owned_count_of(VERIFIER), 1);
    assert_eq!(
        r.owned_badge_at(VERIFIER, 0),
        Some(BadgeId { uri: 101, class_index: class_id })
    );
    assert_eq!(
        r.owned_badge_at(AGENT, 0),
        Some(BadgeId { uri: 102, class_index: class_id })
    );
    assert_eq!(r.badge_slot(102, class_id), Some(0));
}

#[test]
fn events_carry_post_mutation_entities() {
    let (mut r, class_id) = setup_funded_class(2, 10, 5, 100);
    let u1: u32 = 100;
    r.issue(AGENT, class_id, u1).unwrap();
    r.verify_and_settle(VERIFIER, AGENT, class_id, u1).unwrap();
    let events = r.events();
    assert_eq!(events.len(), 4);
    match &events[0] {
        Event::ClassCreated { class_id: id, class } => {
            assert_eq!(*id, class_id);
            assert_eq!(class.total_supply, 2);
            assert!(!class.funded);
            assert_eq!(class.funded_on, None);
        },
        other => panic!("expected ClassCreated, got {:?}", other),
    }
    match &events[1] {
        Event::ClassFunded { class_id: id, funder, class } => {
            assert_eq!(*id, class_id);
            assert_eq!(*funder, FUNDER);
            assert!(class.funded);
            assert_eq!(class.funded_on, Some(0));
        },
        other => panic!("expected ClassFunded, got {:?}", other),
    }
    match &events[2] {
        Event::BadgeIssued { agent, badge } => {
            assert_eq!(*agent, AGENT);
            assert_eq!(badge.uri, u1);
            assert_eq!(badge.class_index, class_id);
            assert!(!badge.verified);
        },
        other => panic!("expected BadgeIssued, got {:?}", other),
    }
    match &events[3] {
        Event::BadgeVerified { verifier, agent, badge } => {
            assert_eq!(*verifier, VERIFIER);
            assert_eq!(*agent, AGENT);
            assert_eq!(badge.uri, u1);
            assert!(badge.verified);
        },
        other => panic!("expected BadgeVerified, got {:?}", other),
    }
}

#[test]
fn funder_as_beneficiary_shares_escrow_slot() {
    // When the badge URI equals the funder account, the stake and the
    // bounty pool share one escrow tag; settlement still pays exactly.
    let (mut r, class_id) = setup_funded_class(2, 10, 5, 100);
    r.issue(AGENT, class_id, FUNDER).unwrap();
    // Bounty pool (10 + 5) * 2 = 30 plus the stake 100 under one tag.
    assert_eq!(r.locked_amount(FUNDER, class_id), 130);
    let agent_before = r.free_balance(AGENT);
    let verifier_before = r.free_balance(VERIFIER);
    r.verify_and_settle(VERIFIER, AGENT, class_id, FUNDER).unwrap();
    assert_eq!(r.free_balance(AGENT) - agent_before, 110);
    assert_eq!(r.free_balance(VERIFIER) - verifier_before, 5);
    // The slot keeps the rest of the bounty pool: 30 - 15 = 15.
    assert_eq!(r.locked_amount(FUNDER, class_id), 15);
}

#[test]
fn class_ids_increase_from_zero() {
    let mut r = Registry::new(OWNER, 0);
    let a = r.create_class(OWNER, 1, 1, 2, 3, 0, 0, 0, 10, 4, 5, 10, 0).unwrap();
    let b = r.create_class(OWNER, 1, 1, 2, 3, 0, 0, 0, 10, 4, 5, 10, 0).unwrap();
    assert_eq!(a, 0);
    assert_eq!(b, 1);
    assert_eq!(r.next_class_id(), 2);
    assert!(r.get_class(0).is_some());
    assert!(r.get_class(1).is_some());
    assert!(r.get_class(2).is_none());
}

#[test]
fn issuance_advances_badge_cursor() {
    let (mut r, class_id) = setup_funded_class(2, 0, 0, 0);
    assert_eq!(r.badge_cursor(), 0);
    r.issue(AGENT, class_id, 100).unwrap();
    r.issue(AGENT, class_id, 101).unwrap();
    assert_eq!(r.badge_cursor(), 2);
}

#[test]
fn expiry_is_creation_time_plus_validity() {
    let mut r = Registry::new(OWNER, 0);
    let id = r.create_class(OWNER, 1, 1, 2, 3, 0, 0, 0, 777, 4, 5, 10, 23).unwrap();
    let class = r.get_class(id).unwrap();
    assert_eq!(class.created_on, 23);
    assert_eq!(class.expiry, 800);
    assert_eq!(class.funding_period, 10);
    assert_eq!(class.creator, OWNER);
}
