//! Error kinds.
//!
//! Every check is local and immediate: a failure aborts the whole enclosing
//! transaction, so no error is ever retried internally and there is no
//! partial-success state.  The kind tells a client whether resubmission can
//! help (`TokenPaused`) or never will (`Unauthorized`, `QuotaExceeded`
//! without a quota increase).

use vstd::prelude::*;

verus! {

/// Errors of the issuance-and-configuration operations.
#[derive(Clone, Copy, Debug, PartialEq, Eq, Structural)]
pub enum StablecoinError {
    /// The invoking identity does not match the role the operation requires.
    Unauthorized,
    /// Malformed input: an oversized display field or reason, or a record
    /// that is missing or already present at its derived address.
    InvalidAccount,
    /// Issuing the requested amount would push cumulative issuance past the
    /// issuer's quota.
    QuotaExceeded,
    /// The ledger reports the account as frozen.
    AccountFrozen,
    /// The instrument's pause flag is set.
    TokenPaused,
    /// A compliance-list operation was attempted while the instrument's
    /// compliance-hook flag is off.
    ComplianceNotEnabled,
    /// Seizure was attempted while the seize-capability flag is off.
    PermanentDelegateNotEnabled,
    /// A compliance record already exists for the address.
    AlreadyBlacklisted,
    /// No compliance record exists for the address.
    NotBlacklisted,
    /// The amount is not acceptable to the ledger.
    InvalidAmount,
}

/// Errors of the transfer-validation hook.
#[derive(Clone, Copy, Debug, PartialEq, Eq, Structural)]
pub enum TransferHookError {
    /// A compliance record exists for the source account's owner.
    SenderBlacklisted,
    /// A compliance record exists for the destination account's owner.
    RecipientBlacklisted,
    /// The invoking identity does not match the hook's recorded authority.
    InvalidTransferHookAccount,
    /// A token account handed to the hook belongs to another asset.
    InvalidMintAccount,
    /// The hook's own pause flag is set.
    TransferPaused,
}

} // verus!
