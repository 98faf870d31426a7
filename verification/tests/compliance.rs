use sss_token::address::{blacklist_address, config_address, hook_address, minter_address};
use sss_token::blacklist::{add_to_blacklist, remove_from_blacklist, BlacklistRegistry};
use sss_token::config::initialize;
use sss_token::error::{StablecoinError, TransferHookError};
use sss_token::hook;
use sss_token::ledger::TokenAccountInfo;
use sss_token::pubkey::Pubkey;

fn pk(n: u64) -> Pubkey {
    Pubkey::new(n, 0, 0, 0)
}

fn test_config(master: Pubkey, asset: Pubkey) -> sss_token::config::StablecoinConfig {
    initialize(
        master,
        asset,
        "Test Dollar".to_string(),
        "TUSD".to_string(),
        "https://example.invalid/tusd".to_string(),
        6,
        true,
        true,
        false,
    )
    .unwrap()
}

#[test]
fn blacklist_round_trip() {
    let master = pk(1);
    let user = pk(30);
    let config = test_config(master, pk(9));
    let mut registry = BlacklistRegistry::new();

    assert!(!registry.exists_entry(user));
    assert_eq!(add_to_blacklist(&config, &mut registry, master, user, "r".to_string(), 7), Ok(()));
    assert!(registry.exists_entry(user));

    assert_eq!(remove_from_blacklist(&config, &mut registry, master, user), Ok(()));
    assert!(!registry.exists_entry(user));
    assert!(registry.get_entry(user).is_none());

    // A second removal finds no record.
    assert_eq!(
        remove_from_blacklist(&config, &mut registry, master, user),
        Err(StablecoinError::NotBlacklisted)
    );
    assert!(!registry.exists_entry(user));
}

#[test]
fn blacklist_needs_compliance_flag() {
    let master = pk(1);
    let user = pk(30);
    // Compliance hook disabled on the instrument: list operations are
    // refused even for the correct blacklister.
    let config = initialize(
        master,
        pk(9),
        "n".to_string(),
        "s".to_string(),
        "u".to_string(),
        6,
        true,
        false,
        false,
    )
    .unwrap();
    let mut registry = BlacklistRegistry::new();
    assert_eq!(
        add_to_blacklist(&config, &mut registry, master, user, "r".to_string(), 7),
        Err(StablecoinError::ComplianceNotEnabled)
    );
    assert_eq!(
        remove_from_blacklist(&config, &mut registry, master, user),
        Err(StablecoinError::ComplianceNotEnabled)
    );
    assert!(!registry.exists_entry(user));
}

#[test]
fn blacklist_is_blacklister_only() {
    let master = pk(1);
    let config = test_config(master, pk(9));
    let mut registry = BlacklistRegistry::new();
    assert_eq!(
        add_to_blacklist(&config, &mut registry, pk(3), pk(30), "r".to_string(), 7),
        Err(StablecoinError::Unauthorized)
    );
    assert_eq!(
        remove_from_blacklist(&config, &mut registry, pk(3), pk(30)),
        Err(StablecoinError::Unauthorized)
    );
}

#[test]
fn blacklist_rejects_oversized_reason_and_duplicates() {
    let master = pk(1);
    let user = pk(30);
    let config = test_config(master, pk(9));
    let mut registry = BlacklistRegistry::new();

    let long_reason: String = "r".repeat(101);
    assert_eq!(
        add_to_blacklist(&config, &mut registry, master, user, long_reason, 7),
        Err(StablecoinError::InvalidAccount)
    );

    let max_reason: String = "r".repeat(100);
    assert_eq!(add_to_blacklist(&config, &mut registry, master, user, max_reason, 7), Ok(()));
    assert_eq!(
        add_to_blacklist(&config, &mut registry, master, user, "again".to_string(), 8),
        Err(StablecoinError::AlreadyBlacklisted)
    );
}

#[test]
fn blacklist_entry_keeps_audit_metadata() {
    let master = pk(1);
    let user = pk(30);
    let config = test_config(master, pk(9));
    let mut registry = BlacklistRegistry::new();
    add_to_blacklist(&config, &mut registry, master, user, "sanctions-list".to_string(), 1700000000)
        .unwrap();
    let entry = registry.get_entry(user).unwrap();
    assert_eq!(entry.user, user);
    assert_eq!(entry.reason, "sanctions-list");
    assert_eq!(entry.timestamp, 1700000000);
}

#[test]
fn hook_scenario_sanctions_list() {
    // A blacklisted source is rejected; after removal the same transfer
    // passes.
    let master = pk(1);
    let asset = pk(9);
    let restricted = pk(30);
    let config = test_config(master, asset);
    let mut registry = BlacklistRegistry::new();
    let hook_data = hook::initialize(pk(100), asset, master);

    add_to_blacklist(&config, &mut registry, master, restricted, "sanctions-list".to_string(), 7)
        .unwrap();

    let source = TokenAccountInfo { owner: restricted, mint: asset };
    let dest = TokenAccountInfo { owner: pk(31), mint: asset };
    assert_eq!(
        hook::execute(&hook_data, &registry, &source, &dest, 10),
        Err(TransferHookError::SenderBlacklisted)
    );

    remove_from_blacklist(&config, &mut registry, master, restricted).unwrap();
    assert_eq!(hook::execute(&hook_data, &registry, &source, &dest, 10), Ok(()));
}

#[test]
fn hook_rejects_restricted_recipient() {
    let master = pk(1);
    let asset = pk(9);
    let restricted = pk(30);
    let config = test_config(master, asset);
    let mut registry = BlacklistRegistry::new();
    let hook_data = hook::initialize(pk(100), asset, master);
    add_to_blacklist(&config, &mut registry, master, restricted, "r".to_string(), 7).unwrap();

    let source = TokenAccountInfo { owner: pk(31), mint: asset };
    let dest = TokenAccountInfo { owner: restricted, mint: asset };
    assert_eq!(
        hook::execute(&hook_data, &registry, &source, &dest, 10),
        Err(TransferHookError::RecipientBlacklisted)
    );
}

#[test]
fn hook_verdict_ignores_record_content_and_amount() {
    let master = pk(1);
    let asset = pk(9);
    let restricted = pk(30);
    let config = test_config(master, asset);
    let hook_data = hook::initialize(pk(100), asset, master);
    let source = TokenAccountInfo { owner: restricted, mint: asset };
    let dest = TokenAccountInfo { owner: pk(31), mint: asset };

    let mut with_reason_a = BlacklistRegistry::new();
    add_to_blacklist(&config, &mut with_reason_a, master, restricted, "a".to_string(), 1).unwrap();
    let mut with_reason_b = BlacklistRegistry::new();
    add_to_blacklist(&config, &mut with_reason_b, master, restricted, "b".repeat(100), 99).unwrap();

    for amount in [0u64, 1, u64::MAX] {
        assert_eq!(
            hook::execute(&hook_data, &with_reason_a, &source, &dest, amount),
            Err(TransferHookError::SenderBlacklisted)
        );
        assert_eq!(
            hook::execute(&hook_data, &with_reason_b, &source, &dest, amount),
            Err(TransferHookError::SenderBlacklisted)
        );
    }
}

#[test]
fn hook_pause_gates_every_transfer() {
    let master = pk(1);
    let asset = pk(9);
    let mut hook_data = hook::initialize(pk(100), asset, master);
    let registry = BlacklistRegistry::new();
    let source = TokenAccountInfo { owner: pk(31), mint: asset };
    let dest = TokenAccountInfo { owner: pk(32), mint: asset };

    assert_eq!(hook::pause(&mut hook_data, pk(3)), Err(TransferHookError::InvalidTransferHookAccount));
    assert!(!hook_data.paused);

    assert_eq!(hook::pause(&mut hook_data, master), Ok(()));
    assert_eq!(
        hook::execute(&hook_data, &registry, &source, &dest, 10),
        Err(TransferHookError::TransferPaused)
    );

    assert_eq!(hook::unpause(&mut hook_data, master), Ok(()));
    assert_eq!(hook::execute(&hook_data, &registry, &source, &dest, 10), Ok(()));
}

#[test]
fn hook_pause_precedes_compliance_checks() {
    let master = pk(1);
    let asset = pk(9);
    let restricted = pk(30);
    let config = test_config(master, asset);
    let mut registry = BlacklistRegistry::new();
    add_to_blacklist(&config, &mut registry, master, restricted, "r".to_string(), 7).unwrap();
    let mut hook_data = hook::initialize(pk(100), asset, master);
    hook::pause(&mut hook_data, master).unwrap();

    let source = TokenAccountInfo { owner: restricted, mint: asset };
    let dest = TokenAccountInfo { owner: pk(31), mint: asset };
    assert_eq!(
        hook::execute(&hook_data, &registry, &source, &dest, 10),
        Err(TransferHookError::TransferPaused)
    );
}

#[test]
fn hook_rejects_foreign_token_accounts() {
    let master = pk(1);
    let asset = pk(9);
    let hook_data = hook::initialize(pk(100), asset, master);
    let registry = BlacklistRegistry::new();

    let foreign_source = TokenAccountInfo { owner: pk(31), mint: pk(8) };
    let dest = TokenAccountInfo { owner: pk(32), mint: asset };
    assert_eq!(
        hook::execute(&hook_data, &registry, &foreign_source, &dest, 10),
        Err(TransferHookError::InvalidMintAccount)
    );

    let source = TokenAccountInfo { owner: pk(31), mint: asset };
    let foreign_dest = TokenAccountInfo { owner: pk(32), mint: pk(8) };
    assert_eq!(
        hook::execute(&hook_data, &registry, &source, &foreign_dest, 10),
        Err(TransferHookError::InvalidMintAccount)
    );
}

#[test]
fn hook_initialize_and_authority_handover() {
    let master = pk(1);
    let asset = pk(9);
    let program = pk(100);
    let mut hook_data = hook::initialize(program, asset, master);
    assert_eq!(hook_data.stablecoin_program, program);
    assert_eq!(hook_data.mint, asset);
    assert_eq!(hook_data.authority, master);
    assert!(!hook_data.paused);

    assert_eq!(hook::extra_account_metas(&hook_data), Ok(()));

    assert_eq!(
        hook::update_authority(&mut hook_data, pk(3), pk(3)),
        Err(TransferHookError::InvalidTransferHookAccount)
    );
    assert_eq!(hook_data.authority, master);
    assert_eq!(hook::update_authority(&mut hook_data, master, pk(4)), Ok(()));
    assert_eq!(hook_data.authority, pk(4));
    assert_eq!(hook::pause(&mut hook_data, master), Err(TransferHookError::InvalidTransferHookAccount));
    assert_eq!(hook::pause(&mut hook_data, pk(4)), Ok(()));
}

#[test]
fn derived_addresses_separate_namespaces_and_keys() {
    let asset = pk(9);
    let other_asset = pk(10);
    let user = pk(30);

    assert_eq!(config_address(asset), config_address(asset));
    assert_ne!(config_address(asset), config_address(other_asset));
    assert_ne!(blacklist_address(asset, user), blacklist_address(other_asset, user));
    assert_ne!(blacklist_address(asset, user), blacklist_address(asset, pk(31)));
    assert_ne!(minter_address(asset, user), blacklist_address(asset, user));
    assert_ne!(hook_address(asset), config_address(asset));
}
