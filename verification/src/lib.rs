//! A small on-chain credit pipeline: depositors supply liquidity to an escrow
//! pool, borrowers draw loans gated by a reputation score, and repayments feed
//! back into that score.
//!
//! Three components, each owning one persistent entity set:
//! - [`pool::LendingPool`]: the escrow balance ledger (deposit / withdraw).
//! - [`registry::RemittanceNFT`]: the reputation-score registry, including its
//!   minter-authorization set and the lazy migration of legacy records.
//! - [`loans::LoanManager`]: the loan lifecycle state machine.
//!
//! The host environment that would carry these components on a chain is out of
//! scope: principals are plain `u64` identities, proof that a principal
//! authorized a call is an [`auth::Auth`] capability handed in by the caller,
//! the fungible asset is the [`token::AssetLedger`] collaborator, and events
//! are appended to in-memory logs instead of being broadcast.

pub mod auth;
pub mod errors;
pub mod events;
pub mod kvmap;
pub mod loans;
pub mod pool;
pub mod registry;
pub mod token;
