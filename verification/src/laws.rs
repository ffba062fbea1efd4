//! System-wide laws of the registry, proved over the transition functions
//! of [`crate::state`]. Together with the operation contracts in
//! [`crate::registry`] they pin down the lifecycle guarantees: uniqueness
//! of pending badges, supply conservation, escrow conservation, single-shot
//! funding, the funding deadline, and the integrity of the dense ownership
//! arrays under swap-removal.

use vstd::prelude::*;
use crate::state::{spec_create_class, spec_fund_class, spec_init, spec_issue, spec_verify,
    StateView};
use crate::types::{key_hi, key_lo, lemma_pack_key_parts, pack_key, AccountId, Balance, BadgeId,
    ContentHash, Error, Moment};

verus! {

/// Uniqueness: the pending store is keyed by the `(uri, class)` pair, so at
/// most one pending badge for a pair can exist; once an issuance for a pair
/// has succeeded, issuing the same pair again — by any agent — is rejected
/// with `AlreadyIssued` and changes nothing, for as long as the badge is
/// pending.
pub proof fn lemma_issue_unique(
    s: StateView,
    agent: AccountId,
    class_id: u32,
    uri: AccountId,
    agent2: AccountId,
)
    requires
        s.wf(),
        spec_issue(s, agent, class_id, uri).1 is Ok,
    ensures
        spec_issue(spec_issue(s, agent, class_id, uri).0, agent2, class_id, uri) == (
            spec_issue(s, agent, class_id, uri).0,
            Err::<(), Error>(Error::AlreadyIssued),
        ),
{
}

/// Supply conservation: a class's remaining supply never exceeds its total
/// supply; a successful issuance decreases it by exactly one; once it is
/// exhausted the next attempt fails with `SupplyExhausted`; and no other
/// operation ever changes it — so a class with total supply `N` admits at
/// most `N` successful issuances, ever.
pub proof fn lemma_supply_conservation(s: StateView, agent: AccountId, class_id: u32, uri: AccountId)
    requires
        s.wf(),
        s.classes.contains_key(class_id),
    ensures
        s.remaining[class_id] <= s.classes[class_id].total_supply,
        spec_issue(s, agent, class_id, uri).1 is Ok ==> s.remaining[class_id] > 0 && spec_issue(
            s,
            agent,
            class_id,
            uri,
        ).0.remaining[class_id] == s.remaining[class_id] - 1,
        s.classes[class_id].funded && !s.pending.contains_key(pack_key(uri, class_id))
            && s.remaining[class_id] == 0 ==> spec_issue(s, agent, class_id, uri) == (
            s,
            Err::<(), Error>(Error::SupplyExhausted),
        ),
        forall|funder: AccountId, now: Moment|
            #[trigger] spec_fund_class(s, funder, class_id, now).0.remaining[class_id]
                == s.remaining[class_id],
        forall|verifier: AccountId, a2: AccountId, u2: AccountId|
            #[trigger] spec_verify(s, verifier, a2, class_id, u2).0.remaining[class_id]
                == s.remaining[class_id],
        forall|a2: AccountId, c2: u32, u2: AccountId|
            c2 != class_id ==> #[trigger] spec_issue(s, a2, c2, u2).0.remaining[class_id]
                == s.remaining[class_id],
{
}

/// Escrow conservation, per badge: while a badge is pending, exactly the
/// class's stake is locked under the badge's own `(uri, class)` tag —
/// provided that tag is not also the class funder's bounty-pool tag (that
/// is, the funder account differs from the badge's URI; otherwise the two
/// holdings share one escrow slot). Summed over the pending badges of such
/// a class, the locked stake is therefore `stake` times the number of
/// pending badges.
pub proof fn lemma_escrow_conservation(s: StateView, class_id: u32, uri: AccountId)
    requires
        s.wf(),
        s.pending.contains_key(pack_key(uri, class_id)),
        !(s.funders.contains_key(class_id) && s.funders[class_id] == uri),
    ensures
        s.locked[pack_key(uri, class_id)] == s.classes[class_id].stake,
{
    assert(s.stake_slot_exact(pack_key(uri, class_id)));
    lemma_pack_key_parts(uri, class_id);
}

/// The escrow tags of all currently pending badges of one class.
pub open spec fn pending_tags_of_class(s: StateView, class_id: u32) -> Set<u64> {
    s.pending.dom().filter(|k: u64| key_lo(k) == class_id)
}

/// The total amount locked under a set of escrow tags.
pub open spec fn locked_sum(locked: Map<u64, Balance>, keys: Set<u64>) -> int {
    keys.fold(0int, |acc: int, k: u64| acc + locked[k])
}

/// Summing a map over keys that all hold one value gives value times count.
proof fn lemma_locked_sum_constant(locked: Map<u64, Balance>, stake: Balance, keys: Set<u64>)
    requires
        keys.finite(),
        forall|k: u64| keys.contains(k) ==> locked[k] == stake,
    ensures
        locked_sum(locked, keys) == stake * keys.len(),
    decreases keys.len(),
{
    let f = |acc: int, k: u64| acc + locked[k];
    assert(vstd::set::fold::is_fun_commutative(f));
    if keys.len() == 0 {
        keys.lemma_len0_is_empty();
        vstd::set::fold::lemma_fold_empty(0int, f);
    } else {
        let a = keys.choose();
        assert(keys.contains(a));
        let rest = keys.remove(a);
        lemma_locked_sum_constant(locked, stake, rest);
        vstd::set::fold::lemma_fold_insert(rest, 0int, f, a);
        assert(rest.insert(a) =~= keys);
        assert(stake * rest.len() + stake == stake * keys.len()) by (nonlinear_arith)
            requires
                keys.len() == rest.len() + 1,
        ;
    }
}

/// Escrow conservation, summed: in a state with finitely many pending
/// badges, the total amount locked under the tags of a class's pending
/// badges is exactly the class's stake times their number — provided the
/// class funder's account is not itself one of those badges' URIs (its
/// tag would then also carry the bounty pool).
pub proof fn lemma_escrow_conservation_total(s: StateView, class_id: u32)
    requires
        s.wf(),
        s.pending.dom().finite(),
        s.classes.contains_key(class_id),
        forall|k: u64|
            #[trigger] s.pending.contains_key(k) && key_lo(k) == class_id ==> !(
            s.funders.contains_key(class_id) && s.funders[class_id] == key_hi(k)),
    ensures
        locked_sum(s.locked, pending_tags_of_class(s, class_id)) == s.classes[class_id].stake
            * pending_tags_of_class(s, class_id).len(),
{
    let tags = pending_tags_of_class(s, class_id);
    assert(tags.subset_of(s.pending.dom()));
    vstd::set_lib::lemma_len_subset(tags, s.pending.dom());
    assert forall|k: u64| tags.contains(k) implies s.locked[k] == s.classes[class_id].stake by {
        assert(s.stake_slot_exact(k));
    }
    lemma_locked_sum_constant(s.locked, s.classes[class_id].stake, tags);
}

/// Settlement pays exactly once: a successful verification credits the
/// agent with exactly the stake plus the transfer bounty and the verifier
/// with exactly the verification bounty (one combined credit when they are
/// the same account), removes the badge from the pending store, and a
/// second settlement of the same badge — by anyone — fails with `NotFound`
/// and changes nothing: no double payout is possible.
pub proof fn lemma_verify_pays_exactly(
    s: StateView,
    verifier: AccountId,
    agent: AccountId,
    class_id: u32,
    uri: AccountId,
    verifier2: AccountId,
    agent2: AccountId,
)
    requires
        s.wf(),
        spec_verify(s, verifier, agent, class_id, uri).1 is Ok,
    ensures
        !spec_verify(s, verifier, agent, class_id, uri).0.pending.contains_key(
            pack_key(uri, class_id),
        ),
        spec_verify(spec_verify(s, verifier, agent, class_id, uri).0, verifier2, agent2, class_id, uri)
            == (spec_verify(s, verifier, agent, class_id, uri).0, Err::<(), Error>(Error::NotFound)),
        verifier == agent ==> spec_verify(s, verifier, agent, class_id, uri).0.free[agent]
            == s.free[agent] + s.classes[class_id].stake + s.classes[class_id].transfer_bounty
            + s.classes[class_id].verification_bounty,
        verifier != agent ==> spec_verify(s, verifier, agent, class_id, uri).0.free[agent]
            == s.free[agent] + s.classes[class_id].stake + s.classes[class_id].transfer_bounty,
        verifier != agent ==> spec_verify(s, verifier, agent, class_id, uri).0.free[verifier]
            == s.free[verifier] + s.classes[class_id].verification_bounty,
{
}

/// Funding is single-shot: after one successful funding of a class, any
/// further funding attempt — by any account, at any time — fails with
/// `InvalidState` and leaves the state unchanged.
pub proof fn lemma_fund_single_shot(
    s: StateView,
    funder: AccountId,
    class_id: u32,
    now: Moment,
    funder2: AccountId,
    now2: Moment,
)
    requires
        s.wf(),
        spec_fund_class(s, funder, class_id, now).1 is Ok,
    ensures
        spec_fund_class(spec_fund_class(s, funder, class_id, now).0, funder2, class_id, now2) == (
            spec_fund_class(s, funder, class_id, now).0,
            Err::<(), Error>(Error::InvalidState),
        ),
{
}

/// The funding deadline is inclusive: funding an unfunded class strictly
/// after `created_on + funding_period` fails with `FundingExpired` and
/// changes nothing, while at the deadline moment itself (or earlier) the
/// attempt is never rejected for expiry.
pub proof fn lemma_funding_deadline(s: StateView, funder: AccountId, class_id: u32, now: Moment)
    requires
        s.wf(),
        s.classes.contains_key(class_id),
        !s.classes[class_id].funded,
        s.classes[class_id].created_on + s.classes[class_id].funding_period <= u64::MAX,
    ensures
        now > s.classes[class_id].created_on + s.classes[class_id].funding_period
            ==> spec_fund_class(s, funder, class_id, now) == (s, Err::<(), Error>(Error::FundingExpired)),
        now <= s.classes[class_id].created_on + s.classes[class_id].funding_period
            ==> spec_fund_class(s, funder, class_id, now).1 != Err::<(), Error>(Error::FundingExpired),
{
}

/// A funded class never reverts: whatever operation is applied next, the
/// class still exists and is still funded.
pub proof fn lemma_funded_never_reverts(s: StateView, class_id: u32)
    requires
        s.wf(),
        s.classes.contains_key(class_id),
        s.classes[class_id].funded,
    ensures
        forall|caller: AccountId|
            (#[trigger] spec_init(s, caller).0).classes.contains_key(class_id) && spec_init(
                s,
                caller,
            ).0.classes[class_id].funded,
        forall|funder: AccountId, c2: u32, now: Moment|
            (#[trigger] spec_fund_class(s, funder, c2, now).0).classes.contains_key(class_id)
                && spec_fund_class(s, funder, c2, now).0.classes[class_id].funded,
        forall|agent: AccountId, c2: u32, uri: AccountId|
            (#[trigger] spec_issue(s, agent, c2, uri).0).classes.contains_key(class_id)
                && spec_issue(s, agent, c2, uri).0.classes[class_id].funded,
        forall|verifier: AccountId, agent: AccountId, c2: u32, uri: AccountId|
            (#[trigger] spec_verify(s, verifier, agent, c2, uri).0).classes.contains_key(class_id)
                && spec_verify(s, verifier, agent, c2, uri).0.classes[class_id].funded,
        forall|
            creator: AccountId,
            name: ContentHash,
            total_supply: u64,
            beneficiary_credential: ContentHash,
            verifier_credential: ContentHash,
            transfer_bounty: Balance,
            verification_bounty: Balance,
            stake: Balance,
            validity: Moment,
            description: ContentHash,
            ricardian_contract: ContentHash,
            funding_period: Moment,
            now: Moment,
        |
            (#[trigger] spec_create_class(
                s,
                creator,
                name,
                total_supply,
                beneficiary_credential,
                verifier_credential,
                transfer_bounty,
                verification_bounty,
                stake,
                validity,
                description,
                ricardian_contract,
                funding_period,
                now,
            ).0).classes.contains_key(class_id) && spec_create_class(
                s,
                creator,
                name,
                total_supply,
                beneficiary_credential,
                verifier_credential,
                transfer_bounty,
                verification_bounty,
                stake,
                validity,
                description,
                ricardian_contract,
                funding_period,
                now,
            ).0.classes[class_id].funded,
{
}

/// Ownership array integrity: after verifying the badge at slot `i` of an
/// agent holding `cnt` pending badges, the agent's array has exactly
/// `cnt - 1` dense entries, the verified badge appears in none of them,
/// the slot at the old top is gone, and — when the removed badge was not
/// itself the last entry — the previously-last badge now sits at slot `i`
/// with its recorded slot updated to `i`.
pub proof fn lemma_swap_remove_integrity(
    s: StateView,
    verifier: AccountId,
    agent: AccountId,
    class_id: u32,
    uri: AccountId,
)
    requires
        s.wf(),
        spec_verify(s, verifier, agent, class_id, uri).1 is Ok,
    ensures
        spec_verify(s, verifier, agent, class_id, uri).0.owned_count[agent] == s.owned_count[agent]
            - 1,
        forall|j: u32|
            j < s.owned_count[agent] - 1 ==> spec_verify(
                s,
                verifier,
                agent,
                class_id,
                uri,
            ).0.owned_array.contains_key(#[trigger] pack_key(agent, j)),
        forall|j: u32|
            j < s.owned_count[agent] - 1 ==> spec_verify(
                s,
                verifier,
                agent,
                class_id,
                uri,
            ).0.owned_array[#[trigger] pack_key(agent, j)] != (BadgeId {
                uri,
                class_index: class_id,
            }),
        !spec_verify(s, verifier, agent, class_id, uri).0.owned_array.contains_key(
            pack_key(agent, (s.owned_count[agent] - 1) as u32),
        ),
        s.badge_index[pack_key(uri, class_id)] != s.owned_count[agent] - 1 ==> {
            let moved = s.owned_array[pack_key(agent, (s.owned_count[agent] - 1) as u32)];
            spec_verify(s, verifier, agent, class_id, uri).0.owned_array[pack_key(
                agent,
                s.badge_index[pack_key(uri, class_id)],
            )] == moved && spec_verify(s, verifier, agent, class_id, uri).0.badge_index[pack_key(
                moved.uri,
                moved.class_index,
            )] == s.badge_index[pack_key(uri, class_id)]
        },
{
    let k = pack_key(uri, class_id);
    let s2 = spec_verify(s, verifier, agent, class_id, uri).0;
    let i = s.badge_index[k];
    let cnt = s.owned_count[agent];
    assert(i < cnt);
    let newcnt = (cnt - 1) as u32;
    lemma_pack_key_parts(uri, class_id);
    lemma_pack_key_parts(agent, newcnt);
    lemma_pack_key_parts(agent, i);
    assert forall|j: u32| j < newcnt implies s2.owned_array.contains_key(
        #[trigger] pack_key(agent, j),
    ) by {
        lemma_pack_key_parts(agent, j);
        assert(s.owned_array.contains_key(pack_key(agent, j)));
    }
    assert forall|j: u32| j < newcnt implies s2.owned_array[#[trigger] pack_key(agent, j)] != (
    BadgeId { uri, class_index: class_id }) by {
        lemma_pack_key_parts(agent, j);
        crate::state::lemma_verify_preserves_wf(s, verifier, agent, class_id, uri);
        assert(s2.owned_array.contains_key(pack_key(agent, j)));
        let b = s2.owned_array[pack_key(agent, j)];
        assert(s2.pending.contains_key(pack_key(b.uri, b.class_index)));
        if b == (BadgeId { uri, class_index: class_id }) {
            assert(s2.pending.contains_key(k));
        }
    }
}

} // verus!