//! The transfer-time compliance hook.
//!
//! The external ledger invokes `execute` synchronously before committing any
//! transfer of the governed asset.  The hook never mutates state: it is a
//! pure predicate over its own pause flag and two existence probes into the
//! compliance registry, one for each transfer party, and a rejection aborts
//! the transfer atomically on the ledger's side.  The hook's pause flag is
//! independent of the instrument's, so transfer validation can be paused
//! without pausing issuance, and vice versa.

use vstd::prelude::*;

use crate::blacklist::{is_blacklisted, BlacklistEntryView, BlacklistRegistry};
use crate::error::TransferHookError;
use crate::ledger::TokenAccountInfo;
use crate::pubkey::Pubkey;

verus! {

/// The hook's configuration record, one per instrument.
#[derive(Clone, Copy, Debug, PartialEq, Eq, Structural)]
pub struct TransferHookData {
    /// The issuance program that owns the compliance registry this hook
    /// probes — a back-reference by identifier, not an ownership edge.
    pub stablecoin_program: Pubkey,
    /// The asset whose transfers this hook validates.
    pub mint: Pubkey,
    /// Identity that may pause, unpause and hand on this hook.
    pub authority: Pubkey,
    /// While set, every transfer is rejected with `TransferPaused`.
    pub paused: bool,
}

/// Creates the hook configuration for an instrument.  Validation starts
/// unpaused.
pub fn initialize(stablecoin_program: Pubkey, mint: Pubkey, authority: Pubkey) -> (r:
    TransferHookData)
    ensures
        r == (TransferHookData { stablecoin_program, mint, authority, paused: false }),
{
    TransferHookData { stablecoin_program, mint, authority, paused: false }
}

/// Outcome of setting the hook pause flag: the hook authority is required,
/// and the flag is the only field that changes.
pub open spec fn set_hook_paused_spec(hook: TransferHookData, signer: Pubkey, value: bool) -> (
    TransferHookData,
    Result<(), TransferHookError>,
) {
    if signer != hook.authority {
        (hook, Err(TransferHookError::InvalidTransferHookAccount))
    } else {
        (TransferHookData { paused: value, ..hook }, Ok(()))
    }
}

/// Pauses transfer validation: every transfer is rejected until `unpause`.
/// Hook authority only.
pub fn pause(hook: &mut TransferHookData, signer: Pubkey) -> (r: Result<(), TransferHookError>)
    ensures
        (*final(hook), r) == set_hook_paused_spec(*old(hook), signer, true),
{
    if signer != hook.authority {
        return Err(TransferHookError::InvalidTransferHookAccount);
    }
    hook.paused = true;
    Ok(())
}

/// Resumes transfer validation.  Hook authority only.
pub fn unpause(hook: &mut TransferHookData, signer: Pubkey) -> (r: Result<(), TransferHookError>)
    ensures
        (*final(hook), r) == set_hook_paused_spec(*old(hook), signer, false),
{
    if signer != hook.authority {
        return Err(TransferHookError::InvalidTransferHookAccount);
    }
    hook.paused = false;
    Ok(())
}

/// Outcome of handing the hook on to a new authority: current authority
/// only; nothing else changes.
pub open spec fn update_authority_spec(
    hook: TransferHookData,
    signer: Pubkey,
    new_authority: Pubkey,
) -> (TransferHookData, Result<(), TransferHookError>) {
    if signer != hook.authority {
        (hook, Err(TransferHookError::InvalidTransferHookAccount))
    } else {
        (TransferHookData { authority: new_authority, ..hook }, Ok(()))
    }
}

/// Replaces the hook authority.  Current hook authority only.
pub fn update_authority(hook: &mut TransferHookData, signer: Pubkey, new_authority: Pubkey) -> (r:
    Result<(), TransferHookError>)
    ensures
        (*final(hook), r) == update_authority_spec(*old(hook), signer, new_authority),
{
    if signer != hook.authority {
        return Err(TransferHookError::InvalidTransferHookAccount);
    }
    hook.authority = new_authority;
    Ok(())
}

/// Names the accounts the ledger must hand to `execute` — the hook
/// configuration and the two compliance probes.  The resolution itself is
/// the host runtime's work; nothing changes locally.
pub fn extra_account_metas(hook: &TransferHookData) -> (r: Result<(), TransferHookError>)
    ensures
        r == Ok::<(), TransferHookError>(()),
{
    Ok(())
}

/// Outcome of transfer validation.
///
/// A transfer is rejected exactly when a token account belongs to another
/// asset, the hook is paused, or a compliance record exists for the source
/// owner or the destination owner; record content never enters the answer.
pub open spec fn execute_spec(
    hook: TransferHookData,
    entries: Seq<BlacklistEntryView>,
    source: TokenAccountInfo,
    dest: TokenAccountInfo,
) -> Result<(), TransferHookError> {
    if source.mint != hook.mint || dest.mint != hook.mint {
        Err(TransferHookError::InvalidMintAccount)
    } else if hook.paused {
        Err(TransferHookError::TransferPaused)
    } else if is_blacklisted(entries, source.owner) {
        Err(TransferHookError::SenderBlacklisted)
    } else if is_blacklisted(entries, dest.owner) {
        Err(TransferHookError::RecipientBlacklisted)
    } else {
        Ok(())
    }
}

/// Validates one transfer of `amount` units from `source` to `dest`.
///
/// Invoked synchronously by the external ledger before it commits the
/// transfer; an error aborts the transfer with no partial balance change.
/// The compliance question is answered by existence probes alone — the
/// cheap check the hot path is designed around.  The amount itself carries
/// no compliance signal and does not enter the decision.
pub fn execute(
    hook: &TransferHookData,
    blacklist: &BlacklistRegistry,
    source: &TokenAccountInfo,
    dest: &TokenAccountInfo,
    amount: u64,
) -> (r: Result<(), TransferHookError>)
    ensures
        r == execute_spec(*hook, blacklist@, *source, *dest),
{
    let _ = amount;
    if source.mint != hook.mint || dest.mint != hook.mint {
        return Err(TransferHookError::InvalidMintAccount);
    }
    if hook.paused {
        return Err(TransferHookError::TransferPaused);
    }
    if blacklist.exists_entry(source.owner) {
        return Err(TransferHookError::SenderBlacklisted);
    }
    if blacklist.exists_entry(dest.owner) {
        return Err(TransferHookError::RecipientBlacklisted);
    }
    Ok(())
}

} // verus!
