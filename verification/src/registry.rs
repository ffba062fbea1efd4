//! The executable registry: class catalog, issuance store, ownership
//! arena, verification engine and the escrow ledger, held as one explicit
//! state value.
//!
//! Every operation's contract ties it to the corresponding transition
//! function of [`crate::state`]: the new abstract state and the returned
//! result are exactly what the transition computes from the old abstract
//! state, and the system invariant [`StateView::wf`] is preserved.

use vstd::prelude::*;
use vstd::hash_map::HashMapWithView;
use crate::ledger::Ledger;
use crate::state::{
    init_state, lemma_create_preserves_wf, lemma_fund_preserves_wf, lemma_init_preserves_wf,
    lemma_init_state_wf, lemma_issue_preserves_wf, lemma_verify_preserves_wf, spec_create_class,
    spec_fund_class, spec_init, spec_issue, spec_verify, StateView,
};
use crate::types::{
    defaulted, lemma_defaulted_insert, make_key, pack_key, AccountId, Balance, BadgeId, Bnft,
    BnftClass, ContentHash, Error, Event, Moment,
};

verus! {

broadcast use vstd::std_specs::hash::group_hash_axioms;

/// The registry state. All storage maps keyed by packed pairs use the
/// packing of [`crate::types::pack_key`].
pub struct Registry {
    owner: AccountId,
    initial_supply: Balance,
    initialized: bool,
    class_cursor: u32,
    bnft_cursor: u32,
    classes: HashMapWithView<u32, BnftClass>,
    remaining: HashMapWithView<u32, u64>,
    pending: HashMapWithView<u64, Bnft>,
    badge_index: HashMapWithView<u64, u32>,
    verified: HashMapWithView<AccountId, Bnft>,
    badge_owner: HashMapWithView<u64, AccountId>,
    owned_count: HashMapWithView<AccountId, u32>,
    owned_array: HashMapWithView<u64, BadgeId>,
    funders: HashMapWithView<u32, AccountId>,
    ledger: Ledger,
    events: Vec<Event>,
}

impl View for Registry {
    type V = StateView;

    closed spec fn view(&self) -> StateView {
        StateView {
            owner: self.owner,
            initial_supply: self.initial_supply,
            initialized: self.initialized,
            class_cursor: self.class_cursor,
            bnft_cursor: self.bnft_cursor,
            classes: self.classes@,
            remaining: self.remaining@,
            pending: self.pending@,
            badge_index: self.badge_index@,
            verified: self.verified@,
            badge_owner: self.badge_owner@,
            owned_count: defaulted(self.owned_count@, 0u32),
            owned_array: self.owned_array@,
            funders: self.funders@,
            free: self.ledger.free_view(),
            locked: self.ledger.locked_view(),
            events: self.events@,
        }
    }
}

impl Registry {
    /// Creates an empty registry. `owner` is the only account allowed to
    /// run [`Registry::init`], which will credit it with `initial_supply`.
    pub fn new(owner: AccountId, initial_supply: Balance) -> (r: Registry)
        ensures
            r@ == init_state(owner, initial_supply),
            r@.wf(),
    {
        let r = Registry {
            owner,
            initial_supply,
            initialized: false,
            class_cursor: 0,
            bnft_cursor: 0,
            classes: HashMapWithView::new(),
            remaining: HashMapWithView::new(),
            pending: HashMapWithView::new(),
            badge_index: HashMapWithView::new(),
            verified: HashMapWithView::new(),
            badge_owner: HashMapWithView::new(),
            owned_count: HashMapWithView::new(),
            owned_array: HashMapWithView::new(),
            funders: HashMapWithView::new(),
            ledger: Ledger::new(),
            events: Vec::new(),
        };
        proof {
            assert(r@ =~= init_state(owner, initial_supply));
            lemma_init_state_wf(owner, initial_supply);
        }
        r
    }

    /// The one-time setup: rejects any caller but the owner, rejects a
    /// second call, and credits the owner's free balance with the
    /// initial supply.
    pub fn init(&mut self, caller: AccountId) -> (r: Result<(), Error>)
        requires
            old(self)@.wf(),
        ensures
            final(self)@ == spec_init(old(self)@, caller).0,
            r == spec_init(old(self)@, caller).1,
            final(self)@.wf(),
    {
        proof {
            lemma_init_preserves_wf(old(self)@, caller);
        }
        if caller != self.owner {
            return Err(Error::Unauthorized);
        }
        if self.initialized {
            return Err(Error::InvalidState);
        }
        let owner = self.owner;
        let amount = self.initial_supply;
        match self.ledger.deposit(owner, amount) {
            Ok(()) => {
                self.initialized = true;
                proof {
                    assert(self@ =~= spec_init(old(self)@, caller).0);
                }
                Ok(())
            },
            Err(_) => Err(Error::ArithmeticOverflow),
        }
    }

    /// Creates a badge class and returns its identifier.
    ///
    /// The identifier is the current cursor; the cursor then advances,
    /// wrapping at the `u32` boundary. The class is stored unfunded with
    /// `expiry = now + validity`, and its remaining supply starts at
    /// `total_supply`. Rejected with `InvalidState` for a zero total
    /// supply (and, once the cursor has wrapped, for a cursor value still
    /// in use, so an identifier is never reassigned), and with
    /// `ArithmeticOverflow` when the expiry computation overflows.
    pub fn create_class(
        &mut self,
        creator: AccountId,
        name: ContentHash,
        total_supply: u64,
        beneficiary_credential: ContentHash,
        verifier_credential: ContentHash,
        transfer_bounty: Balance,
        verification_bounty: Balance,
        stake: Balance,
        validity: Moment,
        description: ContentHash,
        ricardian_contract: ContentHash,
        funding_period: Moment,
        now: Moment,
    ) -> (r: Result<u32, Error>)
        requires
            old(self)@.wf(),
        ensures
            final(self)@ == spec_create_class(
                old(self)@,
                creator,
                name,
                total_supply,
                beneficiary_credential,
                verifier_credential,
                transfer_bounty,
                verification_bounty,
                stake,
                validity,
                description,
                ricardian_contract,
                funding_period,
                now,
            ).0,
            r == spec_create_class(
                old(self)@,
                creator,
                name,
                total_supply,
                beneficiary_credential,
                verifier_credential,
                transfer_bounty,
                verification_bounty,
                stake,
                validity,
                description,
                ricardian_contract,
                funding_period,
                now,
            ).1,
            final(self)@.wf(),
    {
        proof {
            lemma_create_preserves_wf(
                old(self)@,
                creator,
                name,
                total_supply,
                beneficiary_credential,
                verifier_credential,
                transfer_bounty,
                verification_bounty,
                stake,
                validity,
                description,
                ricardian_contract,
                funding_period,
                now,
            );
        }
        if total_supply == 0 {
            return Err(Error::InvalidState);
        }
        let expiry = match now.checked_add(validity) {
            Some(e) => e,
            None => {
                return Err(Error::ArithmeticOverflow);
            },
        };
        let id = self.class_cursor;
        if self.classes.contains_key(&id) {
            return Err(Error::InvalidState);
        }
        let class = BnftClass {
            name,
            total_supply,
            beneficiary_credential,
            verifier_credential,
            transfer_bounty,
            verification_bounty,
            stake,
            expiry,
            description,
            ricardian_contract,
            creator,
            created_on: now,
            funded: false,
            funded_on: None,
            funding_period,
        };
        self.classes.insert(id, class);
        self.remaining.insert(id, total_supply);
        self.class_cursor = if id == u32::MAX {
            0
        } else {
            id + 1
        };
        self.events.push(Event::ClassCreated { class_id: id, class });
        proof {
            assert(self@ =~= spec_create_class(
                old(self)@,
                creator,
                name,
                total_supply,
                beneficiary_credential,
                verifier_credential,
                transfer_bounty,
                verification_bounty,
                stake,
                validity,
                description,
                ricardian_contract,
                funding_period,
                now,
            ).0);
        }
        Ok(id)
    }

    /// Funds a class: escrows the bounty pool
    /// `(transfer_bounty + verification_bounty) * total_supply` from
    /// `funder` under the `(funder, class)` tag, marks the class funded
    /// and records the funder. Rejected with `NotFound` for an unknown
    /// class, `InvalidState` for a class already funded, `FundingExpired`
    /// strictly after `created_on + funding_period` (funding at the
    /// deadline moment itself still succeeds), `ArithmeticOverflow` when
    /// a checked computation overflows, and `EscrowFailure` when the
    /// ledger rejects the lock — in every failure case nothing changes.
    pub fn fund_class(&mut self, funder: AccountId, class_id: u32, now: Moment) -> (r: Result<
        (),
        Error,
    >)
        requires
            old(self)@.wf(),
        ensures
            final(self)@ == spec_fund_class(old(self)@, funder, class_id, now).0,
            r == spec_fund_class(old(self)@, funder, class_id, now).1,
            final(self)@.wf(),
    {
        proof {
            lemma_fund_preserves_wf(old(self)@, funder, class_id, now);
        }
        let class = match self.classes.get(&class_id) {
            Some(c) => *c,
            None => {
                return Err(Error::NotFound);
            },
        };
        if class.funded {
            return Err(Error::InvalidState);
        }
        let deadline = match class.created_on.checked_add(class.funding_period) {
            Some(d) => d,
            None => {
                return Err(Error::ArithmeticOverflow);
            },
        };
        if now > deadline {
            return Err(Error::FundingExpired);
        }
        let total_transfer = match class.transfer_bounty.checked_mul(class.total_supply) {
            Some(v) => v,
            None => {
                return Err(Error::ArithmeticOverflow);
            },
        };
        let total_verification = match class.verification_bounty.checked_mul(class.total_supply) {
            Some(v) => v,
            None => {
                return Err(Error::ArithmeticOverflow);
            },
        };
        let amount = match total_transfer.checked_add(total_verification) {
            Some(v) => v,
            None => {
                return Err(Error::ArithmeticOverflow);
            },
        };
        let tag = make_key(funder, class_id);
        match self.ledger.lock(funder, amount, tag) {
            Ok(()) => {},
            Err(_) => {
                return Err(Error::EscrowFailure);
            },
        }
        let funded_class = BnftClass { funded: true, funded_on: Some(now), ..class };
        self.classes.insert(class_id, funded_class);
        self.funders.insert(class_id, funder);
        self.events.push(Event::ClassFunded { class_id, funder, class: funded_class });
        proof {
            assert(self@ =~= spec_fund_class(old(self)@, funder, class_id, now).0);
        }
        Ok(())
    }

    /// Issues a badge of `class_id` attesting to `uri`, staked by `agent`.
    ///
    /// The class must exist (`NotFound`) and be funded (`InvalidState`),
    /// the `(uri, class)` pair must not already be pending
    /// (`AlreadyIssued`), and supply must remain (`SupplyExhausted`). The
    /// agent's stake is locked under the `(uri, class)` tag; if the
    /// ledger rejects it, nothing changes (`EscrowFailure`). On success
    /// the badge is stored pending, appended to the agent's dense
    /// ownership array, and the remaining supply drops by exactly one.
    pub fn issue(&mut self, agent: AccountId, class_id: u32, uri: AccountId) -> (r: Result<
        (),
        Error,
    >)
        requires
            old(self)@.wf(),
        ensures
            final(self)@ == spec_issue(old(self)@, agent, class_id, uri).0,
            r == spec_issue(old(self)@, agent, class_id, uri).1,
            final(self)@.wf(),
    {
        proof {
            lemma_issue_preserves_wf(old(self)@, agent, class_id, uri);
        }
        let class = match self.classes.get(&class_id) {
            Some(c) => *c,
            None => {
                return Err(Error::NotFound);
            },
        };
        if !class.funded {
            return Err(Error::InvalidState);
        }
        let k = make_key(uri, class_id);
        if self.pending.contains_key(&k) {
            return Err(Error::AlreadyIssued);
        }
        let remaining = match self.remaining.get(&class_id) {
            Some(r) => *r,
            None => {
                // Unreachable: every class has a supply counter.
                return Err(Error::NotFound);
            },
        };
        if remaining == 0 {
            return Err(Error::SupplyExhausted);
        }
        let cnt = match self.owned_count.get(&agent) {
            Some(c) => *c,
            None => 0,
        };
        if cnt == u32::MAX {
            return Err(Error::ArithmeticOverflow);
        }
        match self.ledger.lock(agent, class.stake, k) {
            Ok(()) => {},
            Err(_) => {
                return Err(Error::EscrowFailure);
            },
        }
        let badge = Bnft { uri, class_index: class_id, verified: false };
        self.pending.insert(k, badge);
        self.badge_index.insert(k, cnt);
        self.badge_owner.insert(k, agent);
        proof {
            lemma_defaulted_insert(self.owned_count@, 0u32, agent, (cnt + 1) as u32);
        }
        self.owned_count.insert(agent, cnt + 1);
        let slot_key = make_key(agent, cnt);
        self.owned_array.insert(slot_key, BadgeId { uri, class_index: class_id });
        self.remaining.insert(class_id, remaining - 1);
        self.bnft_cursor = if self.bnft_cursor == u32::MAX {
            0
        } else {
            self.bnft_cursor + 1
        };
        self.events.push(Event::BadgeIssued { agent, badge });
        proof {
            assert(self@ =~= spec_issue(old(self)@, agent, class_id, uri).0);
        }
        Ok(())
    }

    /// Verifies the pending badge `(uri, class_id)` held by `agent` and
    /// settles its escrow.
    ///
    /// The badge must be pending (`NotFound`) and `agent` must be its
    /// recorded holder (`Unauthorized`). Three escrow releases are then
    /// applied as one unit: the stake back to the agent from the badge's
    /// tag, and the transfer and verification bounties to the agent and
    /// to `verifier` from the funder's tag. If any of the three does not
    /// fit the ledger, every release already applied is compensated and
    /// the call rejects with `EscrowFailure`, leaving all state unchanged.
    /// On success the badge moves to the verified store keyed by its URI,
    /// its slot in the agent's dense array is filled by the array's last
    /// entry (whose recorded slot is updated), and the agent's count
    /// drops by one.
    pub fn verify_and_settle(
        &mut self,
        verifier: AccountId,
        agent: AccountId,
        class_id: u32,
        uri: AccountId,
    ) -> (r: Result<(), Error>)
        requires
            old(self)@.wf(),
        ensures
            final(self)@ == spec_verify(old(self)@, verifier, agent, class_id, uri).0,
            r == spec_verify(old(self)@, verifier, agent, class_id, uri).1,
            final(self)@.wf(),
    {
        proof {
            lemma_verify_preserves_wf(old(self)@, verifier, agent, class_id, uri);
        }
        let k = make_key(uri, class_id);
        if !self.pending.contains_key(&k) {
            return Err(Error::NotFound);
        }
        let holder = match self.badge_owner.get(&k) {
            Some(a) => *a,
            None => {
                // Unreachable: every pending badge has a recorded holder.
                return Err(Error::NotFound);
            },
        };
        if holder != agent {
            return Err(Error::Unauthorized);
        }
        let class = match self.classes.get(&class_id) {
            Some(c) => *c,
            None => {
                // Unreachable: every pending badge references an existing class.
                return Err(Error::NotFound);
            },
        };
        let funder = match self.funders.get(&class_id) {
            Some(f) => *f,
            None => {
                // Unreachable: the class of a pending badge is funded.
                return Err(Error::NotFound);
            },
        };
        let ftag = make_key(funder, class_id);

        // Settle the escrow: three releases, compensated on failure so
        // that a rejected call leaves the ledger exactly as it was.
        let r1 = self.ledger.unlock(agent, class.stake, k);
        if r1.is_err() {
            return Err(Error::EscrowFailure);
        }
        let r2 = self.ledger.unlock(agent, class.transfer_bounty, ftag);
        if r2.is_err() {
            let undo1 = self.ledger.lock(agent, class.stake, k);
            proof {
                assert(undo1 is Ok);
                old(self).ledger.lemma_views_total();
                assert(self@ =~= old(self)@);
            }
            return Err(Error::EscrowFailure);
        }
        let r3 = self.ledger.unlock(verifier, class.verification_bounty, ftag);
        if r3.is_err() {
            let undo2 = self.ledger.lock(agent, class.transfer_bounty, ftag);
            proof {
                assert(undo2 is Ok);
            }
            let undo1 = self.ledger.lock(agent, class.stake, k);
            proof {
                assert(undo1 is Ok);
                old(self).ledger.lemma_views_total();
                assert(self@ =~= old(self)@);
            }
            return Err(Error::EscrowFailure);
        }

        // Move the badge out of the pending store and into the verified
        // store, and repair the agent's dense array by swap-removal.
        let i = match self.badge_index.get(&k) {
            Some(x) => *x,
            None => {
                // Unreachable: every pending badge has a recorded slot.
                return Err(Error::NotFound);
            },
        };
        let cnt = match self.owned_count.get(&agent) {
            Some(c) => *c,
            None => 0,
        };
        let newcnt = if cnt == 0 {
            0
        } else {
            cnt - 1
        };
        let lastslot = make_key(agent, newcnt);
        let moved = match self.owned_array.get(&lastslot) {
            Some(m) => *m,
            None => {
                // Unreachable: the agent's array is dense and non-empty.
                return Err(Error::NotFound);
            },
        };
        if i != newcnt {
            let slot_i = make_key(agent, i);
            self.owned_array.insert(slot_i, moved);
            self.badge_index.remove(&k);
            let mkey = make_key(moved.uri, moved.class_index);
            self.badge_index.insert(mkey, i);
        } else {
            self.badge_index.remove(&k);
        }
        self.owned_array.remove(&lastslot);
        self.pending.remove(&k);
        self.badge_owner.remove(&k);
        proof {
            lemma_defaulted_insert(self.owned_count@, 0u32, agent, newcnt);
        }
        self.owned_count.insert(agent, newcnt);
        let badge = Bnft { uri, class_index: class_id, verified: true };
        self.verified.insert(uri, badge);
        self.events.push(Event::BadgeVerified { verifier, agent, badge });
        proof {
            assert(self@ =~= spec_verify(old(self)@, verifier, agent, class_id, uri).0);
        }
        Ok(())
    }

    /// Credits an account's free balance in the escrow ledger, so that it
    /// can fund classes or stake issuances. Rejected when the balance
    /// would overflow; nothing else ever changes.
    pub fn deposit(&mut self, account: AccountId, amount: Balance) -> (r: Result<(), Error>)
        requires
            old(self)@.wf(),
        ensures
            r is Ok <==> old(self)@.free[account] + amount <= u64::MAX,
            r is Ok ==> final(self)@ == (StateView {
                free: old(self)@.free.insert(account, (old(self)@.free[account] + amount) as u64),
                ..old(self)@
            }),
            r is Err ==> final(self)@ == old(self)@ && r == Err::<(), Error>(
                Error::ArithmeticOverflow,
            ),
            final(self)@.wf(),
    {
        let result = match self.ledger.deposit(account, amount) {
            Ok(()) => Ok(()),
            Err(_) => Err(Error::ArithmeticOverflow),
        };
        proof {
            let s2 = self@;
            assert forall|k: u64| #[trigger] s2.stake_slot_exact(k) by {
                assert(old(self)@.stake_slot_exact(k));
            }
            if result is Ok {
                assert(self@ =~= (StateView {
                    free: old(self)@.free.insert(
                        account,
                        (old(self)@.free[account] + amount) as u64,
                    ),
                    ..old(self)@
                }));
            }
        }
        result
    }

    /// The configured owner.
    pub fn owner_account(&self) -> (a: AccountId)
        ensures
            a == self@.owner,
    {
        self.owner
    }

    /// Whether the one-time setup has run.
    pub fn is_initialized(&self) -> (b: bool)
        ensures
            b == self@.initialized,
    {
        self.initialized
    }

    /// Whether an account is an admin: the owner, once setup has run.
    pub fn is_admin(&self, account: AccountId) -> (b: bool)
        ensures
            b == (self@.initialized && account == self@.owner),
    {
        self.initialized && account == self.owner
    }

    /// The identifier the next created class will receive.
    pub fn next_class_id(&self) -> (id: u32)
        ensures
            id == self@.class_cursor,
    {
        self.class_cursor
    }

    /// How many issuances have happened (wrapping at the `u32` boundary).
    pub fn badge_cursor(&self) -> (n: u32)
        ensures
            n == self@.bnft_cursor,
    {
        self.bnft_cursor
    }

    /// Looks a class up by identifier.
    pub fn get_class(&self, class_id: u32) -> (r: Option<BnftClass>)
        ensures
            match r {
                Some(c) => self@.classes.contains_key(class_id) && c == self@.classes[class_id],
                None => !self@.classes.contains_key(class_id),
            },
    {
        match self.classes.get(&class_id) {
            Some(c) => Some(*c),
            None => None,
        }
    }

    /// How many badges of a class may still be issued.
    pub fn remaining_supply(&self, class_id: u32) -> (r: Option<u64>)
        ensures
            match r {
                Some(n) => self@.remaining.contains_key(class_id) && n == self@.remaining[class_id],
                None => !self@.remaining.contains_key(class_id),
            },
    {
        match self.remaining.get(&class_id) {
            Some(n) => Some(*n),
            None => None,
        }
    }

    /// Whether a pending badge exists for the `(uri, class)` pair.
    pub fn is_pending(&self, uri: AccountId, class_id: u32) -> (b: bool)
        ensures
            b == self@.pending.contains_key(pack_key(uri, class_id)),
    {
        let k = make_key(uri, class_id);
        self.pending.contains_key(&k)
    }

    /// Looks a pending badge up by its `(uri, class)` pair.
    pub fn get_pending(&self, uri: AccountId, class_id: u32) -> (r: Option<Bnft>)
        ensures
            match r {
                Some(b) => self@.pending.contains_key(pack_key(uri, class_id)) && b
                    == self@.pending[pack_key(uri, class_id)],
                None => !self@.pending.contains_key(pack_key(uri, class_id)),
            },
    {
        let k = make_key(uri, class_id);
        match self.pending.get(&k) {
            Some(b) => Some(*b),
            None => None,
        }
    }

    /// Looks a verified badge up by its URI.
    pub fn get_verified(&self, uri: AccountId) -> (r: Option<Bnft>)
        ensures
            match r {
                Some(b) => self@.verified.contains_key(uri) && b == self@.verified[uri],
                None => !self@.verified.contains_key(uri),
            },
    {
        match self.verified.get(&uri) {
            Some(b) => Some(*b),
            None => None,
        }
    }

    /// The agent holding the pending badge for the `(uri, class)` pair.
    pub fn owner_of(&self, uri: AccountId, class_id: u32) -> (r: Option<AccountId>)
        ensures
            match r {
                Some(a) => self@.badge_owner.contains_key(pack_key(uri, class_id)) && a
                    == self@.badge_owner[pack_key(uri, class_id)],
                None => !self@.badge_owner.contains_key(pack_key(uri, class_id)),
            },
    {
        let k = make_key(uri, class_id);
        match self.badge_owner.get(&k) {
            Some(a) => Some(*a),
            None => None,
        }
    }

    /// The slot of the pending badge in its holder's dense array.
    pub fn badge_slot(&self, uri: AccountId, class_id: u32) -> (r: Option<u32>)
        ensures
            match r {
                Some(i) => self@.badge_index.contains_key(pack_key(uri, class_id)) && i
                    == self@.badge_index[pack_key(uri, class_id)],
                None => !self@.badge_index.contains_key(pack_key(uri, class_id)),
            },
    {
        let k = make_key(uri, class_id);
        match self.badge_index.get(&k) {
            Some(i) => Some(*i),
            None => None,
        }
    }

    /// How many pending badges an agent holds.
    pub fn owned_count_of(&self, agent: AccountId) -> (n: u32)
        ensures
            n == self@.owned_count[agent],
    {
        match self.owned_count.get(&agent) {
            Some(n) => *n,
            None => 0,
        }
    }

    /// The badge at a slot of an agent's dense array.
    pub fn owned_badge_at(&self, agent: AccountId, slot: u32) -> (r: Option<BadgeId>)
        ensures
            match r {
                Some(b) => self@.owned_array.contains_key(pack_key(agent, slot)) && b
                    == self@.owned_array[pack_key(agent, slot)],
                None => !self@.owned_array.contains_key(pack_key(agent, slot)),
            },
    {
        let k = make_key(agent, slot);
        match self.owned_array.get(&k) {
            Some(b) => Some(*b),
            None => None,
        }
    }

    /// The account that funded a class.
    pub fn funder_of(&self, class_id: u32) -> (r: Option<AccountId>)
        ensures
            match r {
                Some(a) => self@.funders.contains_key(class_id) && a == self@.funders[class_id],
                None => !self@.funders.contains_key(class_id),
            },
    {
        match self.funders.get(&class_id) {
            Some(a) => Some(*a),
            None => None,
        }
    }

    /// An account's free balance in the escrow ledger.
    pub fn free_balance(&self, account: AccountId) -> (b: Balance)
        ensures
            b == self@.free[account],
    {
        self.ledger.free_balance(account)
    }

    /// The amount locked in escrow under the `(party, class)` tag.
    pub fn locked_amount(&self, party: AccountId, class_id: u32) -> (b: Balance)
        ensures
            b == self@.locked[pack_key(party, class_id)],
    {
        let tag = make_key(party, class_id);
        self.ledger.locked_amount(tag)
    }

    /// Every notification emitted so far, oldest first.
    pub fn events(&self) -> (r: &Vec<Event>)
        ensures
            r@ == self@.events,
    {
        &self.events
    }
}

} // verus!
