use sss_token::config::{initialize, pause, transfer_authority, unpause, update_roles};
use sss_token::enforcement::{freeze_account, seize, thaw_account};
use sss_token::error::StablecoinError;
use sss_token::ledger::LedgerOp;
use sss_token::minter::{
    add_minter, burn, mint, remove_minter, update_minter_quota, MinterRegistry,
};
use sss_token::pubkey::Pubkey;

fn pk(n: u64) -> Pubkey {
    Pubkey::new(n, 0, 0, 0)
}

fn test_config(master: Pubkey, asset: Pubkey) -> sss_token::config::StablecoinConfig {
    initialize(
        master,
        asset,
        "Test Dollar".to_string(),
        "TUSD".to_string(),
        "https://example.invalid/tusd".to_string(),
        6,
        true,
        true,
        false,
    )
    .unwrap()
}

#[test]
fn initialize_sets_roles_and_flags() {
    let master = pk(1);
    let asset = pk(9);
    let config = test_config(master, asset);
    assert_eq!(config.master_authority, master);
    assert_eq!(config.mint, asset);
    assert_eq!(config.blacklister, master);
    assert_eq!(config.pauser, master);
    assert_eq!(config.seizer, master);
    assert!(!config.paused);
    assert!(config.enable_permanent_delegate);
    assert!(config.enable_transfer_hook);
    assert!(!config.default_account_frozen);
    assert_eq!(config.decimals, 6);
    assert_eq!(config.name, "Test Dollar");
}

#[test]
fn initialize_rejects_oversized_fields() {
    let master = pk(1);
    let asset = pk(9);
    let long_name: String = "n".repeat(101);
    let r = initialize(
        master,
        asset,
        long_name,
        "T".to_string(),
        "u".to_string(),
        6,
        false,
        false,
        false,
    );
    assert_eq!(r.err(), Some(StablecoinError::InvalidAccount));

    let long_symbol: String = "s".repeat(11);
    let r = initialize(
        master,
        asset,
        "n".to_string(),
        long_symbol,
        "u".to_string(),
        6,
        false,
        false,
        false,
    );
    assert_eq!(r.err(), Some(StablecoinError::InvalidAccount));

    let long_uri: String = "u".repeat(201);
    let r = initialize(
        master,
        asset,
        "n".to_string(),
        "T".to_string(),
        long_uri,
        6,
        false,
        false,
        false,
    );
    assert_eq!(r.err(), Some(StablecoinError::InvalidAccount));
}

#[test]
fn initialize_accepts_fields_at_the_maxima() {
    let r = initialize(
        pk(1),
        pk(9),
        "n".repeat(100),
        "s".repeat(10),
        "u".repeat(200),
        0,
        false,
        false,
        true,
    );
    assert!(r.is_ok());
}

#[test]
fn quota_scenario() {
    // An issuer with quota 1000 issues 600, is refused 500 more, and after
    // the quota is lowered to 500 cannot issue even one unit.
    let master = pk(1);
    let issuer = pk(2);
    let asset = pk(9);
    let dest = pk(20);
    let config = test_config(master, asset);
    let mut registry = MinterRegistry::new();

    assert_eq!(add_minter(&config, &mut registry, master, issuer, 1000), Ok(()));

    let op = mint(&config, &mut registry, issuer, dest, 600).unwrap();
    assert_eq!(
        op,
        LedgerOp::MintTo { asset, destination: dest, authority: issuer, amount: 600 }
    );
    assert_eq!(registry.get(issuer).unwrap().minted, 600);

    let r = mint(&config, &mut registry, issuer, dest, 500);
    assert_eq!(r, Err(StablecoinError::QuotaExceeded));
    assert_eq!(registry.get(issuer).unwrap().minted, 600);
    assert_eq!(registry.get(issuer).unwrap().quota, 1000);

    assert_eq!(update_minter_quota(&config, &mut registry, master, issuer, 500), Ok(()));
    assert_eq!(registry.get(issuer).unwrap().quota, 500);
    assert_eq!(registry.get(issuer).unwrap().minted, 600);

    let r = mint(&config, &mut registry, issuer, dest, 1);
    assert_eq!(r, Err(StablecoinError::QuotaExceeded));
    assert_eq!(registry.get(issuer).unwrap().minted, 600);
}

#[test]
fn mint_without_record_is_unauthorized() {
    let config = test_config(pk(1), pk(9));
    let mut registry = MinterRegistry::new();
    let r = mint(&config, &mut registry, pk(5), pk(20), 1);
    assert_eq!(r, Err(StablecoinError::Unauthorized));
}

#[test]
fn mint_quota_check_survives_counter_overflow() {
    let master = pk(1);
    let issuer = pk(2);
    let config = test_config(master, pk(9));
    let mut registry = MinterRegistry::new();
    add_minter(&config, &mut registry, master, issuer, u64::MAX).unwrap();
    assert!(mint(&config, &mut registry, issuer, pk(20), u64::MAX).is_ok());
    assert_eq!(registry.get(issuer).unwrap().minted, u64::MAX);
    // One more unit would push the cumulative counter past any quota.
    let r = mint(&config, &mut registry, issuer, pk(20), 1);
    assert_eq!(r, Err(StablecoinError::QuotaExceeded));
    assert_eq!(registry.get(issuer).unwrap().minted, u64::MAX);
}

#[test]
fn add_minter_is_master_only_and_exclusive() {
    let master = pk(1);
    let issuer = pk(2);
    let config = test_config(master, pk(9));
    let mut registry = MinterRegistry::new();

    let r = add_minter(&config, &mut registry, pk(3), issuer, 10);
    assert_eq!(r, Err(StablecoinError::Unauthorized));
    assert!(registry.get(issuer).is_none());

    assert_eq!(add_minter(&config, &mut registry, master, issuer, 10), Ok(()));
    let r = add_minter(&config, &mut registry, master, issuer, 99);
    assert_eq!(r, Err(StablecoinError::InvalidAccount));
    assert_eq!(registry.get(issuer).unwrap().quota, 10);
    assert_eq!(registry.get(issuer).unwrap().minted, 0);
}

#[test]
fn remove_minter_zeroes_quota_and_keeps_history() {
    let master = pk(1);
    let issuer = pk(2);
    let config = test_config(master, pk(9));
    let mut registry = MinterRegistry::new();
    add_minter(&config, &mut registry, master, issuer, 100).unwrap();
    mint(&config, &mut registry, issuer, pk(20), 40).unwrap();

    assert_eq!(remove_minter(&config, &mut registry, master, issuer), Ok(()));
    let info = registry.get(issuer).unwrap();
    assert_eq!(info.quota, 0);
    assert_eq!(info.minted, 40);

    let r = mint(&config, &mut registry, issuer, pk(20), 1);
    assert_eq!(r, Err(StablecoinError::QuotaExceeded));
}

#[test]
fn minter_admin_on_missing_record_is_invalid_account() {
    let master = pk(1);
    let config = test_config(master, pk(9));
    let mut registry = MinterRegistry::new();
    assert_eq!(
        update_minter_quota(&config, &mut registry, master, pk(7), 5),
        Err(StablecoinError::InvalidAccount)
    );
    assert_eq!(
        remove_minter(&config, &mut registry, master, pk(7)),
        Err(StablecoinError::InvalidAccount)
    );
}

#[test]
fn pause_blocks_issue_and_redeem_but_not_enforcement() {
    let master = pk(1);
    let issuer = pk(2);
    let asset = pk(9);
    let account = pk(20);
    let mut config = test_config(master, asset);
    let mut registry = MinterRegistry::new();
    add_minter(&config, &mut registry, master, issuer, 100).unwrap();

    assert_eq!(pause(&mut config, master), Ok(()));
    assert!(config.paused);

    assert_eq!(mint(&config, &mut registry, issuer, account, 1), Err(StablecoinError::TokenPaused));
    assert_eq!(registry.get(issuer).unwrap().minted, 0);
    assert_eq!(burn(&config, account, pk(4), 1), Err(StablecoinError::TokenPaused));

    let freeze_authority = pk(5);
    assert_eq!(
        freeze_account(&config, account, freeze_authority),
        Ok(LedgerOp::Freeze { asset, account, authority: freeze_authority })
    );
    assert_eq!(
        thaw_account(&config, account, freeze_authority),
        Ok(LedgerOp::Thaw { asset, account, authority: freeze_authority })
    );
    assert_eq!(
        seize(&config, master, account, pk(21), 7),
        Ok(LedgerOp::TransferWithAuthority {
            asset,
            source: account,
            destination: pk(21),
            authority: master,
            amount: 7,
            decimals: 6,
        })
    );

    assert_eq!(unpause(&mut config, master), Ok(()));
    assert!(mint(&config, &mut registry, issuer, account, 1).is_ok());
    assert!(burn(&config, account, pk(4), 1).is_ok());
}

#[test]
fn pause_requires_pauser_role() {
    let master = pk(1);
    let mut config = test_config(master, pk(9));
    assert_eq!(pause(&mut config, pk(3)), Err(StablecoinError::Unauthorized));
    assert!(!config.paused);
    assert_eq!(update_roles(&mut config, master, master, pk(3), master), Ok(()));
    assert_eq!(pause(&mut config, pk(3)), Ok(()));
    assert!(config.paused);
    assert_eq!(unpause(&mut config, master), Err(StablecoinError::Unauthorized));
    assert!(config.paused);
}

#[test]
fn burn_returns_the_burn_command() {
    let config = test_config(pk(1), pk(9));
    let op = burn(&config, pk(20), pk(4), 33).unwrap();
    assert_eq!(op, LedgerOp::Burn { asset: pk(9), source: pk(20), authority: pk(4), amount: 33 });
}

#[test]
fn seize_needs_role_and_capability() {
    let master = pk(1);
    let config = test_config(master, pk(9));
    assert_eq!(
        seize(&config, pk(3), pk(20), pk(21), 5),
        Err(StablecoinError::Unauthorized)
    );

    let no_delegate = initialize(
        master,
        pk(9),
        "n".to_string(),
        "s".to_string(),
        "u".to_string(),
        2,
        false,
        true,
        false,
    )
    .unwrap();
    assert_eq!(
        seize(&no_delegate, master, pk(20), pk(21), 5),
        Err(StablecoinError::PermanentDelegateNotEnabled)
    );
}

#[test]
fn only_master_authority_governs_roles() {
    let master = pk(1);
    let outsider = pk(3);
    let mut config = test_config(master, pk(9));

    assert_eq!(
        update_roles(&mut config, outsider, outsider, outsider, outsider),
        Err(StablecoinError::Unauthorized)
    );
    assert_eq!(config.blacklister, master);
    assert_eq!(
        transfer_authority(&mut config, outsider, outsider),
        Err(StablecoinError::Unauthorized)
    );
    assert_eq!(config.master_authority, master);

    assert_eq!(update_roles(&mut config, master, pk(4), pk(5), pk(6)), Ok(()));
    assert_eq!(config.blacklister, pk(4));
    assert_eq!(config.pauser, pk(5));
    assert_eq!(config.seizer, pk(6));

    let new_master = pk(7);
    assert_eq!(transfer_authority(&mut config, master, new_master), Ok(()));
    assert_eq!(config.master_authority, new_master);
    // The old master authority is now just another identity.
    assert_eq!(
        update_roles(&mut config, master, master, master, master),
        Err(StablecoinError::Unauthorized)
    );
    assert_eq!(update_roles(&mut config, new_master, pk(8), pk(8), pk(8)), Ok(()));
}
