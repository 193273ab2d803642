//! A batch reconciliation engine for streams of financial transaction
//! records.  One pass over an ordered stream of rows (deposits, withdrawals,
//! disputes, resolves and chargebacks) produces, per client, a ledger of
//! available, held and total funds together with a lock flag.
//!
//! The crate verifies the core: fixed-point money with checked arithmetic,
//! header resolution, record decoding, global transaction-id uniqueness, and
//! the per-account dispute state machine.  Reading bytes from a file or
//! socket and rendering the final snapshots are left to the caller.

pub mod amount;
pub mod text;
pub mod errors;
pub mod columns;
pub mod account;
pub mod decode;
pub mod engine;
pub mod csvio;
pub mod laws;
