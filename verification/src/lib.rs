//! HeritageChain: digital collectibles of cultural heritage sites, with
//! automatic revenue distribution between the treasury, the site
//! preservation fund and the artist.
//!
//! The library holds the contract's logic: the payment split, the minting
//! service with its collectible registry, the storage layout used by the
//! purchase flow, and the contract's entry points.  The contract's storage,
//! its event log and the ledger sequence are held as plain values in
//! [`state::ContractState`].

pub mod address;
pub mod contract;
pub mod mint;
pub mod purchase;
pub mod split;
pub mod state;
pub mod storage;
pub mod types;
