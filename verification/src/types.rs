//! The data model: badge classes, issued badges, events, and errors.

use vstd::prelude::*;

verus! {

/// An account, agent or beneficiary identity.
pub type AccountId = u32;

/// A ledger amount.
pub type Balance = u64;

/// A coarse-grained clock value, advanced externally.
pub type Moment = u64;

/// An opaque content hash (a name, a credential, a document digest).
pub type ContentHash = u64;

/// A definition of an attestable badge category.
///
/// Immutable after creation except for the `funded` / `funded_on` pair,
/// which flips from unfunded to funded at most once and never reverts.
#[derive(Clone, Copy, PartialEq, Eq, Debug)]
pub struct BnftClass {
    pub name: ContentHash,
    pub total_supply: u64,
    pub beneficiary_credential: ContentHash,
    pub verifier_credential: ContentHash,
    pub transfer_bounty: Balance,
    pub verification_bounty: Balance,
    pub stake: Balance,
    pub expiry: Moment,
    pub description: ContentHash,
    pub ricardian_contract: ContentHash,
    pub creator: AccountId,
    pub created_on: Moment,
    pub funded: bool,
    pub funded_on: Option<Moment>,
    pub funding_period: Moment,
}

/// One issued badge: a class instance attesting to a beneficiary URI.
///
/// `verified` is false while the badge is pending and true once it has been
/// moved into the verified store.
#[derive(Clone, Copy, PartialEq, Eq, Structural, Debug)]
pub struct Bnft {
    pub uri: AccountId,
    pub class_index: u32,
    pub verified: bool,
}

/// A reference to a badge: the `(uri, class)` pair that identifies it while
/// it is pending. This is what an agent's dense ownership array stores.
#[derive(Clone, Copy, PartialEq, Eq, Structural, Debug)]
pub struct BadgeId {
    pub uri: AccountId,
    pub class_index: u32,
}

/// Why a registry operation was rejected. A rejected operation mutates
/// nothing.
#[derive(Clone, Copy, PartialEq, Eq, Structural, Debug)]
pub enum Error {
    /// The referenced class or badge does not exist.
    NotFound,
    /// A pending badge for this `(uri, class)` pair already exists.
    AlreadyIssued,
    /// The caller is not the owner, or the named agent does not hold the badge.
    Unauthorized,
    /// The operation does not fit the target's lifecycle state
    /// (class not yet funded, class already funded, registry already set up).
    InvalidState,
    /// Every badge of the class has already been issued.
    SupplyExhausted,
    /// A checked addition or multiplication on amounts or times overflowed.
    ArithmeticOverflow,
    /// The funding deadline of the class has passed.
    FundingExpired,
    /// The escrow ledger rejected the lock or unlock backing the operation.
    EscrowFailure,
}

/// Why the escrow ledger rejected a lock or unlock.
#[derive(Clone, Copy, PartialEq, Eq, Structural, Debug)]
pub enum LedgerError {
    /// The account's free balance does not cover the amount to lock.
    InsufficientFunds,
    /// Nothing is locked under this tag.
    TagMismatch,
    /// The tag holds less than the amount to unlock.
    InsufficientLocked,
    /// Crediting the target balance would overflow it.
    BalanceOverflow,
}

/// A notification emitted after the corresponding mutation has committed,
/// carrying the full post-mutation entity.
#[derive(Clone, Copy, PartialEq, Eq, Debug)]
pub enum Event {
    ClassCreated { class_id: u32, class: BnftClass },
    ClassFunded { class_id: u32, funder: AccountId, class: BnftClass },
    BadgeIssued { agent: AccountId, badge: Bnft },
    BadgeVerified { verifier: AccountId, agent: AccountId, badge: Bnft },
}

/// The storage maps key badges by `(uri, class)` pairs, escrow tags by
/// `(party, class)` pairs, and ownership slots by `(agent, slot)` pairs.
/// Each such pair is packed into one `u64` key: the first component in the
/// high 32 bits, the second in the low 32 bits. Packing is a bijection
/// between pairs of `u32` and `u64`.
pub open spec fn pack_key(hi: u32, lo: u32) -> u64 {
    (hi as u64 * 0x1_0000_0000 + lo as u64) as u64
}

/// The high 32 bits of a packed key.
pub open spec fn key_hi(k: u64) -> u32 {
    (k / 0x1_0000_0000) as u32
}

/// The low 32 bits of a packed key.
pub open spec fn key_lo(k: u64) -> u32 {
    (k % 0x1_0000_0000) as u32
}

/// Packing round-trips: the components of a packed key are recovered exactly.
pub proof fn lemma_pack_key_parts(hi: u32, lo: u32)
    ensures
        key_hi(pack_key(hi, lo)) == hi,
        key_lo(pack_key(hi, lo)) == lo,
{
    assert((hi as u64 * 0x1_0000_0000 + lo as u64) / 0x1_0000_0000 == hi as u64
        && (hi as u64 * 0x1_0000_0000 + lo as u64) % 0x1_0000_0000 == lo as u64) by (nonlinear_arith)
        requires
            (hi as u64) <= 0xFFFF_FFFF,
            (lo as u64) < 0x1_0000_0000,
    ;
}

/// Unpacking round-trips: a key equals its components packed back together.
pub proof fn lemma_key_pack(k: u64)
    ensures
        pack_key(key_hi(k), key_lo(k)) == k,
{
    assert((k / 0x1_0000_0000) * 0x1_0000_0000 + k % 0x1_0000_0000 == k) by (nonlinear_arith);
    assert(k / 0x1_0000_0000 <= 0xFFFF_FFFF) by (nonlinear_arith);
}

/// The total view of a stored map: absent keys read as the default value.
/// Balances, escrow slots and per-agent counters are modelled this way, so
/// that a slot holding the default and a missing slot are the same state.
pub open spec fn defaulted<K, V>(m: Map<K, V>, d: V) -> Map<K, V> {
    Map::new(|k: K| true, |k: K| if m.contains_key(k) { m[k] } else { d })
}

/// The total map that counts zero everywhere: no agent holds a badge yet.
pub open spec fn zero_count_map<K>() -> Map<K, u32> {
    Map::new(|k: K| true, |k: K| 0u32)
}

/// The total map that reads zero everywhere: a ledger side with no entries.
pub open spec fn zero_map<K>() -> Map<K, u64> {
    Map::new(|k: K| true, |k: K| 0u64)
}

/// Inserting into a stored map and inserting into its total view agree.
pub proof fn lemma_defaulted_insert<K, V>(m: Map<K, V>, d: V, k: K, v: V)
    ensures
        defaulted(m.insert(k, v), d) == defaulted(m, d).insert(k, v),
{
    assert(defaulted(m.insert(k, v), d) =~= defaulted(m, d).insert(k, v));
}

/// Packs a `(hi, lo)` pair of identifiers into one storage key.
pub fn make_key(hi: u32, lo: u32) -> (k: u64)
    ensures
        k == pack_key(hi, lo),
{
    hi as u64 * 0x1_0000_0000u64 + lo as u64
}

} // verus!
