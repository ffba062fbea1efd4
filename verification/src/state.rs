//! The mathematical model of the registry.
//!
//! [`StateView`] is the abstract state of the whole system: every storage
//! map of the registry together with both sides of the escrow ledger and
//! the event log. Each public operation of the registry is specified by a
//! transition function here (`spec_init`, `spec_create_class`,
//! `spec_fund_class`, `spec_issue`, `spec_verify`) that maps a state and
//! the call's arguments to the next state and the call's result. An
//! operation that fails returns the state unchanged: every transition is
//! all-or-nothing.
//!
//! [`StateView::wf`] is the system invariant; the lemmas at the end of this
//! module show that every transition preserves it.

use vstd::prelude::*;
use crate::types::{
    key_hi, key_lo, lemma_key_pack, lemma_pack_key_parts, pack_key, zero_count_map, zero_map,
    AccountId, Balance, BadgeId, Bnft, BnftClass, ContentHash, Error, Event, Moment,
};

verus! {

/// The abstract state of the registry and its escrow ledger.
///
/// `pending`, `badge_index` and `badge_owner` are keyed by the packed
/// `(uri, class)` pair of a badge; `owned_array` by a packed
/// `(agent, slot)` pair; `locked` by a packed `(party, class)` escrow tag.
/// `owned_count`, `free` and `locked` are total maps: an account, agent or
/// tag that was never touched reads zero.
#[verifier::ext_equal]
pub ghost struct StateView {
    /// The account allowed to run the one-time setup.
    pub owner: AccountId,
    /// The amount credited to the owner by the one-time setup.
    pub initial_supply: Balance,
    /// Whether the one-time setup has run.
    pub initialized: bool,
    /// The identifier the next created class receives.
    pub class_cursor: u32,
    /// A running counter of issuances.
    pub bnft_cursor: u32,
    /// All classes ever created, by identifier.
    pub classes: Map<u32, BnftClass>,
    /// Per class, how many badges may still be issued.
    pub remaining: Map<u32, u64>,
    /// All pending badges, by packed `(uri, class)` key.
    pub pending: Map<u64, Bnft>,
    /// Per pending badge, its slot in its holder's dense array.
    pub badge_index: Map<u64, u32>,
    /// All verified badges, by beneficiary URI.
    pub verified: Map<AccountId, Bnft>,
    /// Per pending badge, the agent that staked for it.
    pub badge_owner: Map<u64, AccountId>,
    /// Per agent, how many pending badges they hold.
    pub owned_count: Map<AccountId, u32>,
    /// The dense per-agent ownership arrays, by packed `(agent, slot)` key.
    pub owned_array: Map<u64, BadgeId>,
    /// Per funded class, the account that funded it.
    pub funders: Map<u32, AccountId>,
    /// The escrow ledger's free balances.
    pub free: Map<AccountId, Balance>,
    /// The escrow ledger's locked amounts, by tag.
    pub locked: Map<u64, Balance>,
    /// Every notification emitted so far, oldest first.
    pub events: Seq<Event>,
}

/// The state of a freshly constructed registry: nothing created, nothing
/// funded, every balance zero, no events.
pub open spec fn init_state(owner: AccountId, initial_supply: Balance) -> StateView {
    StateView {
        owner,
        initial_supply,
        initialized: false,
        class_cursor: 0,
        bnft_cursor: 0,
        classes: Map::empty(),
        remaining: Map::empty(),
        pending: Map::empty(),
        badge_index: Map::empty(),
        verified: Map::empty(),
        badge_owner: Map::empty(),
        owned_count: zero_count_map::<AccountId>(),
        owned_array: Map::empty(),
        funders: Map::empty(),
        free: zero_map::<AccountId>(),
        locked: zero_map::<u64>(),
        events: Seq::empty(),
    }
}

impl StateView {
    /// Every class has exactly one remaining-supply counter, and the
    /// counter never exceeds the class's total supply.
    pub open spec fn wf_supply(self) -> bool {
        &&& self.remaining.dom() == self.classes.dom()
        &&& forall|c: u32|
            #[trigger] self.classes.contains_key(c) ==> self.remaining[c]
                <= self.classes[c].total_supply
    }

    /// A class records a funder exactly when it is funded, records a
    /// funding time exactly when it is funded, and funders are recorded
    /// only for existing classes.
    pub open spec fn wf_funding(self) -> bool {
        &&& forall|c: u32| #[trigger] self.funders.contains_key(c) ==> self.classes.contains_key(c)
        &&& forall|c: u32|
            #[trigger] self.classes.contains_key(c) ==> (self.classes[c].funded
                <==> self.funders.contains_key(c)) && (self.classes[c].funded
                <==> self.classes[c].funded_on is Some)
    }

    /// A pending badge agrees with its key, is not yet verified, and
    /// references an existing, funded class.
    pub open spec fn wf_pending(self) -> bool {
        forall|k: u64|
            #[trigger] self.pending.contains_key(k) ==> self.pending[k].uri == key_hi(k)
                && self.pending[k].class_index == key_lo(k) && !self.pending[k].verified
                && self.classes.contains_key(key_lo(k)) && self.classes[key_lo(k)].funded
    }

    /// The owner map and the slot map record exactly the pending badges.
    pub open spec fn wf_ownership_doms(self) -> bool {
        self.badge_owner.dom() == self.pending.dom() && self.badge_index.dom()
            == self.pending.dom()
    }

    /// Every pending badge sits in its holder's dense array at its
    /// recorded slot.
    pub open spec fn wf_arena_forward(self) -> bool {
        forall|k: u64|
            #[trigger] self.pending.contains_key(k) ==> self.badge_index[k]
                < self.owned_count[self.badge_owner[k]] && self.owned_array.contains_key(
                pack_key(self.badge_owner[k], self.badge_index[k]),
            ) && self.owned_array[pack_key(self.badge_owner[k], self.badge_index[k])] == (BadgeId {
                uri: key_hi(k),
                class_index: key_lo(k),
            })
    }

    /// Every occupied array slot lies below its agent's count and points to
    /// a pending badge that points back to this very slot.
    pub open spec fn wf_arena_slots(self) -> bool {
        forall|s: u64|
            #[trigger] self.owned_array.contains_key(s) ==> {
                let b = self.owned_array[s];
                &&& key_lo(s) < self.owned_count[key_hi(s)]
                &&& self.pending.contains_key(pack_key(b.uri, b.class_index))
                &&& self.badge_owner[pack_key(b.uri, b.class_index)] == key_hi(s)
                &&& self.badge_index[pack_key(b.uri, b.class_index)] == key_lo(s)
            }
    }

    /// Every slot below an agent's count is occupied: the arrays are dense.
    pub open spec fn wf_arena_dense(self) -> bool {
        forall|a: AccountId, j: u32|
            j < self.owned_count[a] ==> self.owned_array.contains_key(#[trigger] pack_key(a, j))
    }

    /// What is locked under a tag that is not a funder's bounty-pool tag:
    /// exactly the class's stake while the badge with that tag is pending,
    /// and nothing otherwise. (A funder's own tag holds the bounty pool,
    /// possibly together with a stake when the funder is also a
    /// beneficiary URI, and is not pinned here.)
    pub open spec fn stake_slot_exact(self, k: u64) -> bool {
        if self.funders.contains_key(key_lo(k)) && self.funders[key_lo(k)] == key_hi(k) {
            true
        } else if self.pending.contains_key(k) {
            self.locked[k] == self.classes[key_lo(k)].stake
        } else {
            self.locked[k] == 0
        }
    }

    /// Escrow conservation, per tag.
    pub open spec fn wf_escrow(self) -> bool {
        forall|k: u64| #[trigger] self.stake_slot_exact(k)
    }

    /// A verified badge is stored under its own URI and is marked verified.
    pub open spec fn wf_verified(self) -> bool {
        forall|u: AccountId|
            #[trigger] self.verified.contains_key(u) ==> self.verified[u].uri == u
                && self.verified[u].verified
    }

    /// The system invariant: every reachable registry state satisfies it.
    pub open spec fn wf(self) -> bool {
        &&& self.wf_supply()
        &&& self.wf_funding()
        &&& self.wf_pending()
        &&& self.wf_ownership_doms()
        &&& self.wf_arena_forward()
        &&& self.wf_arena_slots()
        &&& self.wf_arena_dense()
        &&& self.wf_escrow()
        &&& self.wf_verified()
    }
}

/// The one-time setup: only the configured owner may run it, and only
/// once. It credits the owner's free balance with the initial supply.
pub open spec fn spec_init(s: StateView, caller: AccountId) -> (StateView, Result<(), Error>) {
    if caller != s.owner {
        (s, Err(Error::Unauthorized))
    } else if s.initialized {
        (s, Err(Error::InvalidState))
    } else if s.free[s.owner] + s.initial_supply > u64::MAX {
        (s, Err(Error::ArithmeticOverflow))
    } else {
        (
            StateView {
                initialized: true,
                free: s.free.insert(s.owner, (s.free[s.owner] + s.initial_supply) as u64),
                ..s
            },
            Ok(()),
        )
    }
}

/// Creating a class: assigns the cursor as its identifier, stores the
/// class unfunded with its expiry computed from `now`, initializes its
/// remaining supply, emits `ClassCreated`, and advances the cursor
/// (wrapping at the `u32` boundary). A zero total supply is rejected; so
/// is an expiry computation that overflows; and, once the cursor has
/// wrapped, an identifier that is still in use is never reassigned.
pub open spec fn spec_create_class(
    s: StateView,
    creator: AccountId,
    name: ContentHash,
    total_supply: u64,
    beneficiary_credential: ContentHash,
    verifier_credential: ContentHash,
    transfer_bounty: Balance,
    verification_bounty: Balance,
    stake: Balance,
    validity: Moment,
    description: ContentHash,
    ricardian_contract: ContentHash,
    funding_period: Moment,
    now: Moment,
) -> (StateView, Result<u32, Error>) {
    if total_supply == 0 {
        (s, Err(Error::InvalidState))
    } else if now + validity > u64::MAX {
        (s, Err(Error::ArithmeticOverflow))
    } else if s.classes.contains_key(s.class_cursor) {
        (s, Err(Error::InvalidState))
    } else {
        let class = BnftClass {
            name,
            total_supply,
            beneficiary_credential,
            verifier_credential,
            transfer_bounty,
            verification_bounty,
            stake,
            expiry: (now + validity) as u64,
            description,
            ricardian_contract,
            creator,
            created_on: now,
            funded: false,
            funded_on: None,
            funding_period,
        };
        let id = s.class_cursor;
        (
            StateView {
                classes: s.classes.insert(id, class),
                remaining: s.remaining.insert(id, total_supply),
                class_cursor: if id == u32::MAX {
                    0u32
                } else {
                    (id + 1) as u32
                },
                events: s.events.push(Event::ClassCreated { class_id: id, class }),
                ..s
            },
            Ok(id),
        )
    }
}

/// Funding a class: at most once per class, and no later than
/// `created_on + funding_period` (the deadline moment itself still
/// accepts funding). The funder escrows the whole bounty pool
/// `(transfer_bounty + verification_bounty) * total_supply` under the
/// `(funder, class)` tag; if the ledger rejects the lock nothing changes.
/// On success the class is marked funded, the funder is recorded, and
/// `ClassFunded` is emitted.
pub open spec fn spec_fund_class(s: StateView, funder: AccountId, class_id: u32, now: Moment) -> (
    StateView,
    Result<(), Error>,
) {
    if !s.classes.contains_key(class_id) {
        (s, Err(Error::NotFound))
    } else {
        let c = s.classes[class_id];
        if c.funded {
            (s, Err(Error::InvalidState))
        } else if c.created_on + c.funding_period > u64::MAX {
            (s, Err(Error::ArithmeticOverflow))
        } else if now > c.created_on + c.funding_period {
            (s, Err(Error::FundingExpired))
        } else if c.transfer_bounty * c.total_supply + c.verification_bounty * c.total_supply
            > u64::MAX {
            (s, Err(Error::ArithmeticOverflow))
        } else {
            let amount = (c.transfer_bounty * c.total_supply + c.verification_bounty
                * c.total_supply) as u64;
            let tag = pack_key(funder, class_id);
            if !(s.free[funder] >= amount && s.locked[tag] + amount <= u64::MAX) {
                (s, Err(Error::EscrowFailure))
            } else {
                let funded_class = BnftClass { funded: true, funded_on: Some(now), ..c };
                (
                    StateView {
                        classes: s.classes.insert(class_id, funded_class),
                        funders: s.funders.insert(class_id, funder),
                        free: s.free.insert(funder, (s.free[funder] - amount) as u64),
                        locked: s.locked.insert(tag, (s.locked[tag] + amount) as u64),
                        events: s.events.push(
                            Event::ClassFunded { class_id, funder, class: funded_class },
                        ),
                        ..s
                    },
                    Ok(()),
                )
            }
        }
    }
}

/// Issuing a badge against a funded class: the `(uri, class)` pair must
/// be new and supply must remain. The agent stakes the class's stake
/// under the `(uri, class)` tag; if the ledger rejects the lock nothing
/// changes. On success the badge is stored pending, appended to the
/// agent's dense ownership array, the remaining supply drops by one, and
/// `BadgeIssued` is emitted.
pub open spec fn spec_issue(s: StateView, agent: AccountId, class_id: u32, uri: AccountId) -> (
    StateView,
    Result<(), Error>,
) {
    if !s.classes.contains_key(class_id) {
        (s, Err(Error::NotFound))
    } else {
        let c = s.classes[class_id];
        let k = pack_key(uri, class_id);
        if !c.funded {
            (s, Err(Error::InvalidState))
        } else if s.pending.contains_key(k) {
            (s, Err(Error::AlreadyIssued))
        } else if s.remaining[class_id] == 0 {
            (s, Err(Error::SupplyExhausted))
        } else if s.owned_count[agent] == u32::MAX {
            (s, Err(Error::ArithmeticOverflow))
        } else if !(s.free[agent] >= c.stake && s.locked[k] + c.stake <= u64::MAX) {
            (s, Err(Error::EscrowFailure))
        } else {
            let badge = Bnft { uri, class_index: class_id, verified: false };
            let slot = s.owned_count[agent];
            (
                StateView {
                    pending: s.pending.insert(k, badge),
                    badge_index: s.badge_index.insert(k, slot),
                    badge_owner: s.badge_owner.insert(k, agent),
                    owned_count: s.owned_count.insert(agent, (slot + 1) as u32),
                    owned_array: s.owned_array.insert(
                        pack_key(agent, slot),
                        BadgeId { uri, class_index: class_id },
                    ),
                    remaining: s.remaining.insert(class_id, (s.remaining[class_id] - 1) as u64),
                    bnft_cursor: if s.bnft_cursor == u32::MAX {
                        0u32
                    } else {
                        (s.bnft_cursor + 1) as u32
                    },
                    free: s.free.insert(agent, (s.free[agent] - c.stake) as u64),
                    locked: s.locked.insert(k, (s.locked[k] + c.stake) as u64),
                    events: s.events.push(Event::BadgeIssued { agent, badge }),
                    ..s
                },
                Ok(()),
            )
        }
    }
}

/// Whether one unlock step fits the ledger: enough is locked under the
/// tag and the credited balance does not overflow.
pub open spec fn unlock_ok(
    free: Map<AccountId, Balance>,
    locked: Map<u64, Balance>,
    account: AccountId,
    amount: Balance,
    tag: u64,
) -> bool {
    locked[tag] >= amount && free[account] + amount <= u64::MAX
}

/// One unlock step on the ledger maps.
pub open spec fn spec_unlock(
    free: Map<AccountId, Balance>,
    locked: Map<u64, Balance>,
    account: AccountId,
    amount: Balance,
    tag: u64,
) -> (Map<AccountId, Balance>, Map<u64, Balance>) {
    (
        free.insert(account, (free[account] + amount) as u64),
        locked.insert(tag, (locked[tag] - amount) as u64),
    )
}

/// Verifying a badge: the pending badge must exist and be held by `agent`.
/// Three escrow releases are applied as one unit — the stake back to the
/// agent from the badge's tag, the transfer bounty to the agent and the
/// verification bounty to the verifier, both from the funder's tag; if any
/// of them does not fit the ledger, nothing at all changes. On success the
/// badge leaves the pending store marked verified and keyed by its URI,
/// its slot in the agent's dense array is filled by the array's last
/// element (whose recorded slot is updated), the agent's count drops by
/// one, and `BadgeVerified` is emitted.
pub open spec fn spec_verify(
    s: StateView,
    verifier: AccountId,
    agent: AccountId,
    class_id: u32,
    uri: AccountId,
) -> (StateView, Result<(), Error>) {
    let k = pack_key(uri, class_id);
    if !s.pending.contains_key(k) {
        (s, Err(Error::NotFound))
    } else if s.badge_owner[k] != agent {
        (s, Err(Error::Unauthorized))
    } else {
        let c = s.classes[class_id];
        let funder = s.funders[class_id];
        let ftag = pack_key(funder, class_id);
        if !unlock_ok(s.free, s.locked, agent, c.stake, k) {
            (s, Err(Error::EscrowFailure))
        } else {
            let fl1 = spec_unlock(s.free, s.locked, agent, c.stake, k);
            if !unlock_ok(fl1.0, fl1.1, agent, c.transfer_bounty, ftag) {
                (s, Err(Error::EscrowFailure))
            } else {
                let fl2 = spec_unlock(fl1.0, fl1.1, agent, c.transfer_bounty, ftag);
                if !unlock_ok(fl2.0, fl2.1, verifier, c.verification_bounty, ftag) {
                    (s, Err(Error::EscrowFailure))
                } else {
                    let fl3 = spec_unlock(fl2.0, fl2.1, verifier, c.verification_bounty, ftag);
                    let i = s.badge_index[k];
                    let cnt = s.owned_count[agent];
                    let newcnt = if cnt == 0 {
                        0u32
                    } else {
                        (cnt - 1) as u32
                    };
                    let lastslot = pack_key(agent, newcnt);
                    let moved = s.owned_array[lastslot];
                    let arr = if i != newcnt {
                        s.owned_array.insert(pack_key(agent, i), moved).remove(lastslot)
                    } else {
                        s.owned_array.remove(lastslot)
                    };
                    let bi = if i != newcnt {
                        s.badge_index.remove(k).insert(pack_key(moved.uri, moved.class_index), i)
                    } else {
                        s.badge_index.remove(k)
                    };
                    let badge = Bnft { uri, class_index: class_id, verified: true };
                    (
                        StateView {
                            pending: s.pending.remove(k),
                            badge_owner: s.badge_owner.remove(k),
                            badge_index: bi,
                            owned_array: arr,
                            owned_count: s.owned_count.insert(agent, newcnt),
                            verified: s.verified.insert(uri, badge),
                            free: fl3.0,
                            locked: fl3.1,
                            events: s.events.push(
                                Event::BadgeVerified { verifier, agent, badge },
                            ),
                            ..s
                        },
                        Ok(()),
                    )
                }
            }
        }
    }
}

/// A fresh registry state satisfies the invariant.
pub proof fn lemma_init_state_wf(owner: AccountId, initial_supply: Balance)
    ensures
        init_state(owner, initial_supply).wf(),
{
    let s = init_state(owner, initial_supply);
    assert forall|k: u64| #[trigger] s.stake_slot_exact(k) by {
        assert(s.locked[k] == 0);
    }
}

/// The one-time setup preserves the invariant.
pub proof fn lemma_init_preserves_wf(s: StateView, caller: AccountId)
    requires
        s.wf(),
    ensures
        spec_init(s, caller).0.wf(),
{
    let s2 = spec_init(s, caller).0;
    assert forall|k: u64| #[trigger] s2.stake_slot_exact(k) by {
        assert(s.stake_slot_exact(k));
    }
}

/// Creating a class preserves the invariant.
pub proof fn lemma_create_preserves_wf(
    s: StateView,
    creator: AccountId,
    name: ContentHash,
    total_supply: u64,
    beneficiary_credential: ContentHash,
    verifier_credential: ContentHash,
    transfer_bounty: Balance,
    verification_bounty: Balance,
    stake: Balance,
    validity: Moment,
    description: ContentHash,
    ricardian_contract: ContentHash,
    funding_period: Moment,
    now: Moment,
)
    requires
        s.wf(),
    ensures
        spec_create_class(
            s,
            creator,
            name,
            total_supply,
            beneficiary_credential,
            verifier_credential,
            transfer_bounty,
            verification_bounty,
            stake,
            validity,
            description,
            ricardian_contract,
            funding_period,
            now,
        ).0.wf(),
{
    let s2 = spec_create_class(
        s,
        creator,
        name,
        total_supply,
        beneficiary_credential,
        verifier_credential,
        transfer_bounty,
        verification_bounty,
        stake,
        validity,
        description,
        ricardian_contract,
        funding_period,
        now,
    ).0;
    if total_supply != 0 && now + validity <= u64::MAX && !s.classes.contains_key(s.class_cursor) {
        let id = s.class_cursor;
        assert(s2.remaining.dom() =~= s2.classes.dom());
        assert(!s.funders.contains_key(id));
        assert forall|k: u64| #[trigger] s2.pending.contains_key(k) implies s2.pending[k].uri
            == key_hi(k) && s2.pending[k].class_index == key_lo(k) && !s2.pending[k].verified
            && s2.classes.contains_key(key_lo(k)) && s2.classes[key_lo(k)].funded by {
            assert(s.pending.contains_key(k));
        }
        assert forall|k: u64| #[trigger] s2.stake_slot_exact(k) by {
            assert(s.stake_slot_exact(k));
            if key_lo(k) == id {
                assert(!s.pending.contains_key(k));
            }
        }
    }
}

/// Funding a class preserves the invariant.
pub proof fn lemma_fund_preserves_wf(s: StateView, funder: AccountId, class_id: u32, now: Moment)
    requires
        s.wf(),
    ensures
        spec_fund_class(s, funder, class_id, now).0.wf(),
{
    let r = spec_fund_class(s, funder, class_id, now);
    let s2 = r.0;
    if r.1 is Ok {
        let c = s.classes[class_id];
        let tag = pack_key(funder, class_id);
        assert(s2.remaining.dom() =~= s2.classes.dom());
        assert forall|k: u64| #[trigger] s2.pending.contains_key(k) implies s2.pending[k].uri
            == key_hi(k) && s2.pending[k].class_index == key_lo(k) && !s2.pending[k].verified
            && s2.classes.contains_key(key_lo(k)) && s2.classes[key_lo(k)].funded by {
            assert(s.pending.contains_key(k));
            assert(key_lo(k) != class_id);
        }
        assert forall|k: u64| #[trigger] s2.stake_slot_exact(k) by {
            assert(s.stake_slot_exact(k));
            lemma_pack_key_parts(funder, class_id);
            if k != tag && key_lo(k) == class_id {
                assert(!s.funders.contains_key(class_id));
                assert(!s.pending.contains_key(k));
            }
        }
    }
}

/// Issuing a badge preserves the invariant.
pub proof fn lemma_issue_preserves_wf(s: StateView, agent: AccountId, class_id: u32, uri: AccountId)
    requires
        s.wf(),
    ensures
        spec_issue(s, agent, class_id, uri).0.wf(),
{
    let r = spec_issue(s, agent, class_id, uri);
    let s2 = r.0;
    if r.1 is Ok {
        let c = s.classes[class_id];
        let k = pack_key(uri, class_id);
        let cnt = s.owned_count[agent];
        let slot_key = pack_key(agent, cnt);
        lemma_pack_key_parts(uri, class_id);
        lemma_pack_key_parts(agent, cnt);
        assert(s2.remaining.dom() =~= s2.classes.dom());
        assert(s2.badge_owner.dom() =~= s2.pending.dom());
        assert(s2.badge_index.dom() =~= s2.pending.dom());
        assert forall|k2: u64| #[trigger] s2.pending.contains_key(k2) implies s2.pending[k2].uri
            == key_hi(k2) && s2.pending[k2].class_index == key_lo(k2) && !s2.pending[k2].verified
            && s2.classes.contains_key(key_lo(k2)) && s2.classes[key_lo(k2)].funded by {
            if k2 != k {
                assert(s.pending.contains_key(k2));
            }
        }
        assert forall|k2: u64| #[trigger] s2.pending.contains_key(k2) implies s2.badge_index[k2]
            < s2.owned_count[s2.badge_owner[k2]] && s2.owned_array.contains_key(
            pack_key(s2.badge_owner[k2], s2.badge_index[k2]),
        ) && s2.owned_array[pack_key(s2.badge_owner[k2], s2.badge_index[k2])] == (BadgeId {
            uri: key_hi(k2),
            class_index: key_lo(k2),
        }) by {
            if k2 == k {
                assert(s2.owned_array[slot_key] == (BadgeId { uri, class_index: class_id }));
            } else {
                assert(s.pending.contains_key(k2));
                let a2 = s.badge_owner[k2];
                let i2 = s.badge_index[k2];
                lemma_pack_key_parts(a2, i2);
                assert(pack_key(a2, i2) != slot_key);
            }
        }
        assert forall|s3: u64| #[trigger] s2.owned_array.contains_key(s3) implies {
            let b = s2.owned_array[s3];
            &&& key_lo(s3) < s2.owned_count[key_hi(s3)]
            &&& s2.pending.contains_key(pack_key(b.uri, b.class_index))
            &&& s2.badge_owner[pack_key(b.uri, b.class_index)] == key_hi(s3)
            &&& s2.badge_index[pack_key(b.uri, b.class_index)] == key_lo(s3)
        } by {
            if s3 != slot_key {
                assert(s.owned_array.contains_key(s3));
                let b = s.owned_array[s3];
                assert(pack_key(b.uri, b.class_index) != k);
            }
        }
        assert forall|a: AccountId, j: u32| j < s2.owned_count[a] implies s2.owned_array.contains_key(
            #[trigger] pack_key(a, j),
        ) by {
            if a == agent && j == cnt {
                assert(s2.owned_array.contains_key(slot_key));
            } else {
                assert(j < s.owned_count[a]);
                assert(s.owned_array.contains_key(pack_key(a, j)));
                lemma_pack_key_parts(a, j);
                assert(pack_key(a, j) != slot_key);
            }
        }
        assert forall|k2: u64| #[trigger] s2.stake_slot_exact(k2) by {
            assert(s.stake_slot_exact(k2));
            if k2 == k {
                assert(key_lo(k) == class_id);
            }
        }
    }
}

/// Verifying a badge preserves the invariant.
pub proof fn lemma_verify_preserves_wf(
    s: StateView,
    verifier: AccountId,
    agent: AccountId,
    class_id: u32,
    uri: AccountId,
)
    requires
        s.wf(),
    ensures
        spec_verify(s, verifier, agent, class_id, uri).0.wf(),
{
    let r = spec_verify(s, verifier, agent, class_id, uri);
    let s2 = r.0;
    if r.1 is Ok {
        let k = pack_key(uri, class_id);
        let c = s.classes[class_id];
        let funder = s.funders[class_id];
        let ftag = pack_key(funder, class_id);
        let i = s.badge_index[k];
        let cnt = s.owned_count[agent];
        lemma_pack_key_parts(uri, class_id);
        lemma_pack_key_parts(funder, class_id);
        // The badge sits in the agent's array, so the count is positive.
        assert(i < cnt);
        let newcnt = (cnt - 1) as u32;
        let lastslot = pack_key(agent, newcnt);
        lemma_pack_key_parts(agent, newcnt);
        lemma_pack_key_parts(agent, i);
        assert(s.owned_array.contains_key(lastslot));
        let moved = s.owned_array[lastslot];
        let mkey = pack_key(moved.uri, moved.class_index);
        // The last slot's badge points back to the last slot.
        assert(s.pending.contains_key(mkey) && s.badge_owner[mkey] == agent && s.badge_index[mkey]
            == newcnt);
        if i == newcnt {
            assert(s.owned_array[pack_key(agent, i)] == (BadgeId {
                uri: key_hi(k),
                class_index: key_lo(k),
            }));
            lemma_key_pack(k);
            assert(mkey == k);
        } else {
            assert(mkey != k);
        }
        // The badge's class is funded, so its funder is on record and the
        // badge's own tag is not the funder's tag.
        assert(s.funders.contains_key(class_id));
        assert(funder != uri || !s.pending.contains_key(k) || s.stake_slot_exact(k));
        assert(ftag == k ==> funder == uri);

        assert(s2.badge_owner.dom() =~= s2.pending.dom());
        assert(s2.badge_index.dom() =~= s2.pending.dom());

        assert forall|k2: u64| #[trigger] s2.pending.contains_key(k2) implies s2.pending[k2].uri
            == key_hi(k2) && s2.pending[k2].class_index == key_lo(k2) && !s2.pending[k2].verified
            && s2.classes.contains_key(key_lo(k2)) && s2.classes[key_lo(k2)].funded by {
            assert(s.pending.contains_key(k2));
        }

        assert forall|k2: u64| #[trigger] s2.pending.contains_key(k2) implies s2.badge_index[k2]
            < s2.owned_count[s2.badge_owner[k2]] && s2.owned_array.contains_key(
            pack_key(s2.badge_owner[k2], s2.badge_index[k2]),
        ) && s2.owned_array[pack_key(s2.badge_owner[k2], s2.badge_index[k2])] == (BadgeId {
            uri: key_hi(k2),
            class_index: key_lo(k2),
        }) by {
            assert(s.pending.contains_key(k2) && k2 != k);
            let a2 = s.badge_owner[k2];
            let i2 = s.badge_index[k2];
            lemma_pack_key_parts(a2, i2);
            lemma_key_pack(k2);
            if a2 != agent {
                assert(pack_key(a2, i2) != lastslot && pack_key(a2, i2) != pack_key(agent, i));
            } else {
                // Distinct pending badges of one agent sit at distinct slots.
                assert(i2 != i) by {
                    if i2 == i {
                        assert(s.owned_array[pack_key(agent, i)] == (BadgeId {
                            uri: key_hi(k2),
                            class_index: key_lo(k2),
                        }));
                        assert(s.owned_array[pack_key(agent, i)] == (BadgeId {
                            uri: key_hi(k),
                            class_index: key_lo(k),
                        }));
                        lemma_key_pack(k);
                    }
                }
                if k2 == mkey {
                    assert(i != newcnt);
                    assert(i2 == newcnt);
                    assert(s2.badge_index[k2] == i);
                    assert(s2.owned_array.contains_key(pack_key(agent, i)));
                    lemma_pack_key_parts(moved.uri, moved.class_index);
                    assert(s2.owned_array[pack_key(agent, i)] == (BadgeId {
                        uri: key_hi(k2),
                        class_index: key_lo(k2),
                    }));
                } else {
                    assert(i2 != newcnt) by {
                        if i2 == newcnt {
                            assert(s.owned_array[pack_key(agent, i2)] == (BadgeId {
                                uri: key_hi(k2),
                                class_index: key_lo(k2),
                            }));
                            assert(s.owned_array[lastslot] == moved);
                            lemma_pack_key_parts(moved.uri, moved.class_index);
                        }
                    }
                    assert(s2.badge_index[k2] == i2);
                    assert(i2 < newcnt);
                    assert(pack_key(agent, i2) != lastslot && pack_key(agent, i2) != pack_key(
                        agent,
                        i,
                    ));
                }
            }
        }

        assert forall|s3: u64| #[trigger] s2.owned_array.contains_key(s3) implies {
            let b = s2.owned_array[s3];
            &&& key_lo(s3) < s2.owned_count[key_hi(s3)]
            &&& s2.pending.contains_key(pack_key(b.uri, b.class_index))
            &&& s2.badge_owner[pack_key(b.uri, b.class_index)] == key_hi(s3)
            &&& s2.badge_index[pack_key(b.uri, b.class_index)] == key_lo(s3)
        } by {
            assert(s3 != lastslot);
            if i != newcnt && s3 == pack_key(agent, i) {
                assert(s2.owned_array[s3] == moved);
                lemma_pack_key_parts(moved.uri, moved.class_index);
                assert(s2.badge_index[mkey] == i);
            } else {
                assert(s.owned_array.contains_key(s3));
                let b = s.owned_array[s3];
                let bkey = pack_key(b.uri, b.class_index);
                assert(s.pending.contains_key(bkey) && s.badge_owner[bkey] == key_hi(s3)
                    && s.badge_index[bkey] == key_lo(s3));
                lemma_pack_key_parts(key_hi(s3), key_lo(s3));
                assert(bkey != k) by {
                    if bkey == k {
                        assert(key_hi(s3) == agent && key_lo(s3) == i);
                        lemma_key_pack(s3);
                    }
                }
                assert(bkey != mkey) by {
                    if bkey == mkey {
                        assert(key_hi(s3) == agent && key_lo(s3) == newcnt);
                        lemma_key_pack(s3);
                    }
                }
                if key_hi(s3) == agent {
                    assert(key_lo(s3) != newcnt) by {
                        if key_lo(s3) == newcnt {
                            lemma_key_pack(s3);
                        }
                    }
                    assert(key_lo(s3) < newcnt);
                }
            }
        }

        assert forall|a: AccountId, j: u32| j < s2.owned_count[a] implies s2.owned_array.contains_key(
            #[trigger] pack_key(a, j),
        ) by {
            lemma_pack_key_parts(a, j);
            assert(j < s.owned_count[a]);
            assert(s.owned_array.contains_key(pack_key(a, j)));
            assert(pack_key(a, j) != lastslot);
        }

        assert forall|k2: u64| #[trigger] s2.stake_slot_exact(k2) by {
            assert(s.stake_slot_exact(k2));
            assert(s.stake_slot_exact(k));
            if s2.funders.contains_key(key_lo(k2)) && s2.funders[key_lo(k2)] == key_hi(k2) {
            } else if k2 == k {
                assert(!(s.funders.contains_key(class_id) && funder == uri));
                assert(ftag != k);
                assert(s.locked[k] == c.stake);
                assert(s2.locked[k] == 0);
            } else {
                assert(k2 != ftag);
                assert(s2.locked[k2] == s.locked[k2]);
                assert(s2.pending.contains_key(k2) == s.pending.contains_key(k2));
            }
        }
    }
}

} // verus!
