//! Authorization-and-compliance control plane for a role-governed digital
//! currency.
//!
//! The library decides, for every privileged operation (issue, redeem,
//! freeze, pause, seize, compliance-list changes), whether the operation is
//! permitted, and it gates every value transfer through a synchronous
//! compliance hook.  It does not store balances or move value itself: the
//! operations that touch value return a [`ledger::LedgerOp`] command that the
//! host hands to the external token ledger inside the same atomic
//! transaction.

pub mod address;
pub mod blacklist;
pub mod codec;
pub mod config;
pub mod enforcement;
pub mod error;
pub mod hook;
pub mod laws;
pub mod layout;
pub mod ledger;
pub mod minter;
pub mod pubkey;
