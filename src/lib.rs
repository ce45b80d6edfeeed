//! A multi-asset balance ledger: per-token balances with checked arithmetic,
//! minting, transfers (single and all-or-nothing batch) and the settlement
//! step of transfer-and-notify.
pub mod alist;
pub mod ids;
pub mod ledger;
pub mod laws;
pub mod settlement;
pub mod transfer;
pub mod views;
