//! A staking-backed badge registry.
//!
//! A creator defines a *class* of attestable badges, a funder escrows the
//! bounty pool for it, agents issue individual badges against the class by
//! posting a refundable stake, and a verifier later confirms each badge,
//! which releases the stake and pays the bounties.
//!
//! The registry keeps all of its state in an explicit [`registry::Registry`]
//! value; the escrow ledger is the [`ledger::Ledger`] held inside it, and the
//! clock is an explicit `now` argument on every time-dependent operation.

pub mod laws;
pub mod ledger;
pub mod registry;
pub mod state;
pub mod types;
