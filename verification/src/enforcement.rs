//! Freeze, thaw and seizure.
//!
//! Freezing and thawing are the emergency brake: they are deliberately not
//! gated by the instrument pause flag, so they stay available even while
//! issuance and redemption are blocked.  Seizure is the one operation that
//! bypasses owner-authorized transfer semantics, and it is gated by its own
//! capability flag.

use vstd::prelude::*;

use crate::config::{authorized, require_role, ConfigView, StablecoinConfig};
use crate::error::StablecoinError;
use crate::ledger::LedgerOp;
use crate::pubkey::Pubkey;

verus! {

/// Outcome of a freeze request: always the freeze command, whatever the
/// pause flag says.  Whether `authority` may freeze is the ledger's own
/// check.
pub open spec fn freeze_spec(cfg: ConfigView, token_account: Pubkey, authority: Pubkey) -> Result<
    LedgerOp,
    StablecoinError,
> {
    Ok(LedgerOp::Freeze { asset: cfg.mint, account: token_account, authority })
}

/// Requests that the ledger freeze a token account.
///
/// Not gated by the pause flag: freezing must remain available while the
/// instrument is paused.
pub fn freeze_account(config: &StablecoinConfig, token_account: Pubkey, authority: Pubkey) -> (r:
    Result<LedgerOp, StablecoinError>)
    ensures
        r == freeze_spec(config@, token_account, authority),
{
    Ok(LedgerOp::Freeze { asset: config.mint, account: token_account, authority })
}

/// Outcome of a thaw request: always the thaw command.
pub open spec fn thaw_spec(cfg: ConfigView, token_account: Pubkey, authority: Pubkey) -> Result<
    LedgerOp,
    StablecoinError,
> {
    Ok(LedgerOp::Thaw { asset: cfg.mint, account: token_account, authority })
}

/// Requests that the ledger thaw a token account.  Not gated by the pause
/// flag.
pub fn thaw_account(config: &StablecoinConfig, token_account: Pubkey, authority: Pubkey) -> (r:
    Result<LedgerOp, StablecoinError>)
    ensures
        r == thaw_spec(config@, token_account, authority),
{
    Ok(LedgerOp::Thaw { asset: config.mint, account: token_account, authority })
}

/// Outcome of a seizure request: seizer role only, and only while the
/// seize-capability flag is on; then the delegated transfer command.
pub open spec fn seize_spec(
    cfg: ConfigView,
    signer: Pubkey,
    source_token: Pubkey,
    dest_token: Pubkey,
    amount: u64,
) -> Result<LedgerOp, StablecoinError> {
    if !authorized(cfg.seizer, signer) {
        Err(StablecoinError::Unauthorized)
    } else if !cfg.enable_permanent_delegate {
        Err(StablecoinError::PermanentDelegateNotEnabled)
    } else {
        Ok(
            LedgerOp::TransferWithAuthority {
                asset: cfg.mint,
                source: source_token,
                destination: dest_token,
                authority: signer,
                amount,
                decimals: cfg.decimals,
            },
        )
    }
}

/// Requests a transfer out of a restricted account under the seizer's
/// standing delegated authority, independent of the owner's consent.
///
/// Seizer role only; fails with `PermanentDelegateNotEnabled` while the
/// seize-capability flag is off.  Not gated by the pause flag.
pub fn seize(
    config: &StablecoinConfig,
    signer: Pubkey,
    source_token: Pubkey,
    dest_token: Pubkey,
    amount: u64,
) -> (r: Result<LedgerOp, StablecoinError>)
    ensures
        r == seize_spec(config@, signer, source_token, dest_token, amount),
{
    let gate = require_role(config.seizer, signer);
    if let Err(e) = gate {
        return Err(e);
    }
    if !config.enable_permanent_delegate {
        return Err(StablecoinError::PermanentDelegateNotEnabled);
    }
    Ok(
        LedgerOp::TransferWithAuthority {
            asset: config.mint,
            source: source_token,
            destination: dest_token,
            authority: signer,
            amount,
            decimals: config.decimals,
        },
    )
}

} // verus!
