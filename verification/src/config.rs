//! Instrument configuration and the authorization gate.
//!
//! One configuration record exists per managed currency (the instrument).
//! It holds the master authority, the three delegated role identities, the
//! pause flag and the three feature flags.  Each mutating operation is
//! tied to one role; authorization is a value-equality comparison of the
//! signing identity against that role's recorded identity, and any
//! mismatch fails with `Unauthorized`.

use vstd::prelude::*;
use vstd::string::StrSliceExecFns;

use crate::error::StablecoinError;
use crate::pubkey::Pubkey;

verus! {

/// Longest accepted display name, in characters.
pub const MAX_NAME_LEN: usize = 100;

/// Longest accepted display symbol, in characters.
pub const MAX_SYMBOL_LEN: usize = 10;

/// Longest accepted display URI, in characters.
pub const MAX_URI_LEN: usize = 200;

/// The configuration record of one instrument.
///
/// Created once at instrument genesis; thereafter only the roles and the
/// pause flag are ever mutated, and the record is never destroyed.
pub struct StablecoinConfig {
    /// Root role: may change every other role, grant and revoke issuers,
    /// and hand the root role itself on.
    pub master_authority: Pubkey,
    /// The ledger asset this configuration governs.
    pub mint: Pubkey,
    /// Display name (at most 100 characters).
    pub name: String,
    /// Display symbol (at most 10 characters).
    pub symbol: String,
    /// Display URI (at most 200 characters).
    pub uri: String,
    /// Decimal precision of the asset.
    pub decimals: u8,
    /// While set, issuance and redemption are refused.
    pub paused: bool,
    /// Feature flag: seizure through the standing delegated authority.
    pub enable_permanent_delegate: bool,
    /// Feature flag: the transfer-time compliance hook and the
    /// compliance-list operations.
    pub enable_transfer_hook: bool,
    /// Feature flag: new ledger accounts start frozen.
    pub default_account_frozen: bool,
    /// Role that maintains the compliance list.
    pub blacklister: Pubkey,
    /// Role that may set and clear the pause flag.
    pub pauser: Pubkey,
    /// Role that may seize value from restricted accounts.
    pub seizer: Pubkey,
}

/// Mathematical image of a configuration record.
pub struct ConfigView {
    pub master_authority: Pubkey,
    pub mint: Pubkey,
    pub name: Seq<char>,
    pub symbol: Seq<char>,
    pub uri: Seq<char>,
    pub decimals: u8,
    pub paused: bool,
    pub enable_permanent_delegate: bool,
    pub enable_transfer_hook: bool,
    pub default_account_frozen: bool,
    pub blacklister: Pubkey,
    pub pauser: Pubkey,
    pub seizer: Pubkey,
}

impl View for StablecoinConfig {
    type V = ConfigView;

    open spec fn view(&self) -> ConfigView {
        ConfigView {
            master_authority: self.master_authority,
            mint: self.mint,
            name: self.name@,
            symbol: self.symbol@,
            uri: self.uri@,
            decimals: self.decimals,
            paused: self.paused,
            enable_permanent_delegate: self.enable_permanent_delegate,
            enable_transfer_hook: self.enable_transfer_hook,
            default_account_frozen: self.default_account_frozen,
            blacklister: self.blacklister,
            pauser: self.pauser,
            seizer: self.seizer,
        }
    }
}

/// The authorization rule, applied uniformly: an identity is authorized for
/// a role exactly when it equals the recorded role identity.
pub open spec fn authorized(role: Pubkey, signer: Pubkey) -> bool {
    signer == role
}

/// The authorization gate.  Every mutating operation passes the role field
/// it requires together with the verified invoking identity.
pub fn require_role(role: Pubkey, signer: Pubkey) -> (r: Result<(), StablecoinError>)
    ensures
        r == if authorized(role, signer) {
            Ok::<(), StablecoinError>(())
        } else {
            Err::<(), StablecoinError>(StablecoinError::Unauthorized)
        },
{
    if signer == role {
        Ok(())
    } else {
        Err(StablecoinError::Unauthorized)
    }
}

/// Outcome of creating an instrument: the genesis configuration, or
/// `InvalidAccount` when a display field exceeds its maximum.
pub open spec fn initialize_spec(
    authority: Pubkey,
    mint: Pubkey,
    name: Seq<char>,
    symbol: Seq<char>,
    uri: Seq<char>,
    decimals: u8,
    enable_permanent_delegate: bool,
    enable_transfer_hook: bool,
    default_account_frozen: bool,
) -> Result<ConfigView, StablecoinError> {
    if name.len() > MAX_NAME_LEN || symbol.len() > MAX_SYMBOL_LEN || uri.len() > MAX_URI_LEN {
        Err(StablecoinError::InvalidAccount)
    } else {
        Ok(
            ConfigView {
                master_authority: authority,
                mint,
                name,
                symbol,
                uri,
                decimals,
                paused: false,
                enable_permanent_delegate,
                enable_transfer_hook,
                default_account_frozen,
                blacklister: authority,
                pauser: authority,
                seizer: authority,
            },
        )
    }
}

/// The view of a configuration result, for stating contracts.
pub open spec fn config_result_view(r: Result<StablecoinConfig, StablecoinError>) -> Result<
    ConfigView,
    StablecoinError,
> {
    match r {
        Ok(c) => Ok(c@),
        Err(e) => Err(e),
    }
}

/// Creates the configuration record of a new instrument.
///
/// The creating identity becomes the master authority and, until changed,
/// also holds every delegated role.  The instrument starts unpaused.  Fails
/// with `InvalidAccount` when a display field exceeds its maximum length.
pub fn initialize(
    authority: Pubkey,
    mint: Pubkey,
    name: String,
    symbol: String,
    uri: String,
    decimals: u8,
    enable_permanent_delegate: bool,
    enable_transfer_hook: bool,
    default_account_frozen: bool,
) -> (r: Result<StablecoinConfig, StablecoinError>)
    ensures
        config_result_view(r) == initialize_spec(
            authority,
            mint,
            name@,
            symbol@,
            uri@,
            decimals,
            enable_permanent_delegate,
            enable_transfer_hook,
            default_account_frozen,
        ),
{
    if name.unicode_len() > MAX_NAME_LEN {
        return Err(StablecoinError::InvalidAccount);
    }
    if symbol.unicode_len() > MAX_SYMBOL_LEN {
        return Err(StablecoinError::InvalidAccount);
    }
    if uri.unicode_len() > MAX_URI_LEN {
        return Err(StablecoinError::InvalidAccount);
    }
    Ok(
        StablecoinConfig {
            master_authority: authority,
            mint,
            name,
            symbol,
            uri,
            decimals,
            paused: false,
            enable_permanent_delegate,
            enable_transfer_hook,
            default_account_frozen,
            blacklister: authority,
            pauser: authority,
            seizer: authority,
        },
    )
}

/// Outcome of setting the pause flag: the pauser role is required, and the
/// flag is the only field that changes.
pub open spec fn set_paused_spec(cfg: ConfigView, signer: Pubkey, value: bool) -> (
    ConfigView,
    Result<(), StablecoinError>,
) {
    if !authorized(cfg.pauser, signer) {
        (cfg, Err(StablecoinError::Unauthorized))
    } else {
        (ConfigView { paused: value, ..cfg }, Ok(()))
    }
}

/// Sets the instrument pause flag.  Pauser role only.
///
/// Pausing is a pure flag flip: it blocks subsequent issuance and
/// redemption but deliberately leaves freeze, thaw and seizure available.
pub fn pause(config: &mut StablecoinConfig, signer: Pubkey) -> (r: Result<(), StablecoinError>)
    ensures
        (final(config)@, r) == set_paused_spec(old(config)@, signer, true),
{
    let gate = require_role(config.pauser, signer);
    if let Err(e) = gate {
        return Err(e);
    }
    config.paused = true;
    Ok(())
}

/// Clears the instrument pause flag.  Pauser role only.
pub fn unpause(config: &mut StablecoinConfig, signer: Pubkey) -> (r: Result<(), StablecoinError>)
    ensures
        (final(config)@, r) == set_paused_spec(old(config)@, signer, false),
{
    let gate = require_role(config.pauser, signer);
    if let Err(e) = gate {
        return Err(e);
    }
    config.paused = false;
    Ok(())
}

/// Outcome of replacing the three delegated roles: master authority only;
/// nothing else changes.
pub open spec fn update_roles_spec(
    cfg: ConfigView,
    signer: Pubkey,
    new_blacklister: Pubkey,
    new_pauser: Pubkey,
    new_seizer: Pubkey,
) -> (ConfigView, Result<(), StablecoinError>) {
    if !authorized(cfg.master_authority, signer) {
        (cfg, Err(StablecoinError::Unauthorized))
    } else {
        (
            ConfigView {
                blacklister: new_blacklister,
                pauser: new_pauser,
                seizer: new_seizer,
                ..cfg
            },
            Ok(()),
        )
    }
}

/// Replaces the blacklister, pauser and seizer roles.  Master authority
/// only.
pub fn update_roles(
    config: &mut StablecoinConfig,
    signer: Pubkey,
    new_blacklister: Pubkey,
    new_pauser: Pubkey,
    new_seizer: Pubkey,
) -> (r: Result<(), StablecoinError>)
    ensures
        (final(config)@, r) == update_roles_spec(
            old(config)@,
            signer,
            new_blacklister,
            new_pauser,
            new_seizer,
        ),
{
    let gate = require_role(config.master_authority, signer);
    if let Err(e) = gate {
        return Err(e);
    }
    config.blacklister = new_blacklister;
    config.pauser = new_pauser;
    config.seizer = new_seizer;
    Ok(())
}

/// Outcome of handing the master authority on: master authority only;
/// nothing else changes.
pub open spec fn transfer_authority_spec(
    cfg: ConfigView,
    signer: Pubkey,
    new_master_authority: Pubkey,
) -> (ConfigView, Result<(), StablecoinError>) {
    if !authorized(cfg.master_authority, signer) {
        (cfg, Err(StablecoinError::Unauthorized))
    } else {
        (ConfigView { master_authority: new_master_authority, ..cfg }, Ok(()))
    }
}

/// Transfers the master authority to a new identity.  Master authority
/// only.
pub fn transfer_authority(
    config: &mut StablecoinConfig,
    signer: Pubkey,
    new_master_authority: Pubkey,
) -> (r: Result<(), StablecoinError>)
    ensures
        (final(config)@, r) == transfer_authority_spec(
            old(config)@,
            signer,
            new_master_authority,
        ),
{
    let gate = require_role(config.master_authority, signer);
    if let Err(e) = gate {
        return Err(e);
    }
    config.master_authority = new_master_authority;
    Ok(())
}

} // verus!
