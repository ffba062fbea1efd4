//! The escrow ledger: per-account free balances and per-tag locked amounts.
//!
//! A *tag* is an opaque `u64` key (a packed `(party, class)` pair, see
//! [`crate::types::pack_key`]) that says why an amount is locked. Locks
//! against different tags are accounted independently, so one account can
//! hold several outstanding locks that are released separately, and an
//! unlock may credit a different account than the one that locked.
//!
//! Every operation is atomic: it either moves the full amount or rejects
//! and leaves the ledger unchanged.

use vstd::prelude::*;
use vstd::hash_map::HashMapWithView;
use crate::types::{defaulted, lemma_defaulted_insert, zero_map, AccountId, Balance, LedgerError};

verus! {

broadcast use vstd::std_specs::hash::group_hash_axioms;

/// The escrow ledger state.
pub struct Ledger {
    free: HashMapWithView<AccountId, Balance>,
    locked: HashMapWithView<u64, Balance>,
}

impl Ledger {
    /// The free balance of every account; an account with no entry holds zero.
    pub closed spec fn free_view(self) -> Map<AccountId, Balance> {
        defaulted(self.free@, 0u64)
    }

    /// The amount locked under every tag; a tag with no entry holds zero.
    pub closed spec fn locked_view(self) -> Map<u64, Balance> {
        defaulted(self.locked@, 0u64)
    }

    /// Both views are total maps: every account and every tag is in their
    /// domains, whether or not it was ever touched.
    pub proof fn lemma_views_total(self)
        ensures
            forall|a: AccountId| #[trigger] self.free_view().contains_key(a),
            forall|t: u64| #[trigger] self.locked_view().contains_key(t),
    {
    }

    /// Creates an empty ledger: every balance and every tag reads zero.
    pub fn new() -> (l: Ledger)
        ensures
            l.free_view() == zero_map::<AccountId>(),
            l.locked_view() == zero_map::<u64>(),
    {
        let l = Ledger { free: HashMapWithView::new(), locked: HashMapWithView::new() };
        proof {
            assert(l.free_view() =~= zero_map::<AccountId>());
            assert(l.locked_view() =~= zero_map::<u64>());
        }
        l
    }

    /// Reads an account's free balance.
    pub fn free_balance(&self, account: AccountId) -> (b: Balance)
        ensures
            b == self.free_view()[account],
    {
        match self.free.get(&account) {
            Some(b) => *b,
            None => 0,
        }
    }

    /// Reads the amount locked under a tag.
    pub fn locked_amount(&self, tag: u64) -> (b: Balance)
        ensures
            b == self.locked_view()[tag],
    {
        match self.locked.get(&tag) {
            Some(b) => *b,
            None => 0,
        }
    }

    /// Credits an account's free balance. This is how value enters the
    /// ledger; the registry operations themselves only move value between
    /// the free and locked sides.
    pub fn deposit(&mut self, account: AccountId, amount: Balance) -> (r: Result<(), LedgerError>)
        ensures
            r is Ok <==> old(self).free_view()[account] + amount <= u64::MAX,
            match r {
                Ok(()) => final(self).free_view() == old(self).free_view().insert(
                    account,
                    (old(self).free_view()[account] + amount) as u64,
                ) && final(self).locked_view() == old(self).locked_view(),
                Err(e) => e == LedgerError::BalanceOverflow && *final(self) == *old(self),
            },
    {
        let current = self.free_balance(account);
        if amount > u64::MAX - current {
            return Err(LedgerError::BalanceOverflow);
        }
        let updated = current + amount;
        proof {
            lemma_defaulted_insert(self.free@, 0u64, account, updated);
        }
        self.free.insert(account, updated);
        Ok(())
    }

    /// Moves `amount` from `account`'s free balance into escrow under `tag`.
    /// All-or-nothing: on any rejection the ledger is unchanged.
    pub fn lock(&mut self, account: AccountId, amount: Balance, tag: u64) -> (r: Result<
        (),
        LedgerError,
    >)
        ensures
            r is Ok <==> old(self).free_view()[account] >= amount && old(self).locked_view()[tag]
                + amount <= u64::MAX,
            match r {
                Ok(()) => final(self).free_view() == old(self).free_view().insert(
                    account,
                    (old(self).free_view()[account] - amount) as u64,
                ) && final(self).locked_view() == old(self).locked_view().insert(
                    tag,
                    (old(self).locked_view()[tag] + amount) as u64,
                ),
                Err(e) => *final(self) == *old(self) && ((e == LedgerError::InsufficientFunds
                    && old(self).free_view()[account] < amount) || (e
                    == LedgerError::BalanceOverflow && old(self).free_view()[account] >= amount
                    && old(self).locked_view()[tag] + amount > u64::MAX)),
            },
    {
        let have = self.free_balance(account);
        if have < amount {
            return Err(LedgerError::InsufficientFunds);
        }
        let held = self.locked_amount(tag);
        if amount > u64::MAX - held {
            return Err(LedgerError::BalanceOverflow);
        }
        proof {
            lemma_defaulted_insert(self.free@, 0u64, account, (have - amount) as u64);
            lemma_defaulted_insert(self.locked@, 0u64, tag, (held + amount) as u64);
        }
        self.free.insert(account, have - amount);
        self.locked.insert(tag, held + amount);
        Ok(())
    }

    /// Releases `amount` from escrow under `tag` into `account`'s free
    /// balance. The credited account need not be the one that locked.
    /// All-or-nothing: on any rejection the ledger is unchanged.
    pub fn unlock(&mut self, account: AccountId, amount: Balance, tag: u64) -> (r: Result<
        (),
        LedgerError,
    >)
        ensures
            r is Ok <==> old(self).locked_view()[tag] >= amount && old(self).free_view()[account]
                + amount <= u64::MAX,
            match r {
                Ok(()) => final(self).locked_view() == old(self).locked_view().insert(
                    tag,
                    (old(self).locked_view()[tag] - amount) as u64,
                ) && final(self).free_view() == old(self).free_view().insert(
                    account,
                    (old(self).free_view()[account] + amount) as u64,
                ),
                Err(e) => *final(self) == *old(self) && ((e == LedgerError::TagMismatch && old(
                    self,
                ).locked_view()[tag] == 0 && amount > 0) || (e == LedgerError::InsufficientLocked
                    && 0 < old(self).locked_view()[tag] < amount) || (e
                    == LedgerError::BalanceOverflow && old(self).locked_view()[tag] >= amount
                    && old(self).free_view()[account] + amount > u64::MAX)),
            },
    {
        let held = self.locked_amount(tag);
        if held < amount {
            if held == 0 {
                return Err(LedgerError::TagMismatch);
            }
            return Err(LedgerError::InsufficientLocked);
        }
        let have = self.free_balance(account);
        if amount > u64::MAX - have {
            return Err(LedgerError::BalanceOverflow);
        }
        proof {
            lemma_defaulted_insert(self.locked@, 0u64, tag, (held - amount) as u64);
            lemma_defaulted_insert(self.free@, 0u64, account, (have + amount) as u64);
        }
        self.locked.insert(tag, held - amount);
        self.free.insert(account, have + amount);
        Ok(())
    }
}

} // verus!
