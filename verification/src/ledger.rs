//! The external token ledger, as a narrow interface of verbs.
//!
//! The ledger that holds balances is an external collaborator: it alone
//! moves value.  The library never calls it directly.  An operation that
//! needs the ledger returns a [`LedgerOp`] command, and the host performs it
//! inside the same atomic transaction as the local mutation, so that a
//! failed ledger call rolls the whole operation back.

use vstd::prelude::*;

use crate::pubkey::Pubkey;

verus! {

/// One call into the external token ledger.
///
/// Each variant carries the account identifiers and the authorizing
/// identity the ledger needs; all are assumed atomic, with no partial
/// effect on failure.
#[derive(Clone, Copy, Debug, PartialEq, Eq, Structural)]
pub enum LedgerOp {
    /// Create `amount` new units of `asset` in `destination`, authorized by
    /// the issuing identity.
    MintTo { asset: Pubkey, destination: Pubkey, authority: Pubkey, amount: u64 },
    /// Destroy `amount` units of `asset` held in `source`.
    Burn { asset: Pubkey, source: Pubkey, authority: Pubkey, amount: u64 },
    /// Freeze a ledger account.
    Freeze { asset: Pubkey, account: Pubkey, authority: Pubkey },
    /// Thaw a ledger account.
    Thaw { asset: Pubkey, account: Pubkey, authority: Pubkey },
    /// Move `amount` units from `source` to `destination` under a standing
    /// delegated authority, checked against the asset's precision.
    TransferWithAuthority {
        asset: Pubkey,
        source: Pubkey,
        destination: Pubkey,
        authority: Pubkey,
        amount: u64,
        decimals: u8,
    },
}

/// What the compliance hook reads of a ledger token account: the identity
/// that owns it and the asset it holds.
#[derive(Clone, Copy, Debug, PartialEq, Eq, Structural)]
pub struct TokenAccountInfo {
    /// The account's owning identity.
    pub owner: Pubkey,
    /// The asset the account holds.
    pub mint: Pubkey,
}

} // verus!
