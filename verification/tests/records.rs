use sss_token::blacklist::BlacklistEntry;
use sss_token::config::initialize;
use sss_token::hook;
use sss_token::layout::{
    decode_blacklist_record, decode_config_record, decode_hook_record, decode_minter_record,
    encode_blacklist_record, encode_config_record, encode_hook_record, encode_minter_record,
};
use sss_token::minter::MinterInfo;
use sss_token::pubkey::Pubkey;

fn pk(n: u64) -> Pubkey {
    Pubkey::new(n, 0, 0, 0)
}

#[test]
fn minter_record_round_trip() {
    let m = MinterInfo { authority: Pubkey::new(1, 2, 3, u64::MAX), quota: 1000, minted: 600 };
    let bytes = encode_minter_record(&m);
    assert_eq!(bytes.len(), 56);
    assert_eq!(decode_minter_record(&bytes), Some(m));
}

#[test]
fn minter_record_rejects_malformed_bytes() {
    let m = MinterInfo { authority: pk(2), quota: 10, minted: 0 };
    let bytes = encode_minter_record(&m);

    let mut wrong_tag = bytes.clone();
    wrong_tag[0] = 9;
    assert_eq!(decode_minter_record(&wrong_tag), None);

    let truncated = &bytes[..55];
    assert_eq!(decode_minter_record(truncated), None);

    let mut padded = bytes.clone();
    padded.push(0);
    assert_eq!(decode_minter_record(&padded), None);
}

#[test]
fn hook_record_round_trip() {
    let h = hook::initialize(pk(100), pk(9), pk(1));
    let bytes = encode_hook_record(&h);
    assert_eq!(bytes.len(), 105);
    assert_eq!(decode_hook_record(&bytes), Some(h));

    let mut hp = h;
    hook::pause(&mut hp, pk(1)).unwrap();
    let paused_bytes = encode_hook_record(&hp);
    assert_eq!(paused_bytes[104], 1);
    assert_eq!(decode_hook_record(&paused_bytes), Some(hp));
}

#[test]
fn hook_record_rejects_bad_flag_byte() {
    let h = hook::initialize(pk(100), pk(9), pk(1));
    let mut bytes = encode_hook_record(&h);
    bytes[104] = 2;
    assert_eq!(decode_hook_record(&bytes), None);
}

#[test]
fn blacklist_record_round_trip() {
    let e = BlacklistEntry {
        user: pk(30),
        reason: "sanctions-list ✓ Verstoß".to_string(),
        timestamp: -12345,
    };
    let bytes = encode_blacklist_record(&e);
    let back = decode_blacklist_record(&bytes).unwrap();
    assert_eq!(back.user, e.user);
    assert_eq!(back.reason, e.reason);
    assert_eq!(back.timestamp, e.timestamp);
}

#[test]
fn blacklist_record_rejects_bad_text() {
    let e = BlacklistEntry { user: pk(30), reason: "ok".to_string(), timestamp: 7 };
    let bytes = encode_blacklist_record(&e);

    // Corrupt the UTF-8 payload.
    let mut bad_utf8 = bytes.clone();
    bad_utf8[44] = 0xff;
    assert!(decode_blacklist_record(&bad_utf8).is_none());

    // A length prefix that overruns the record.
    let mut bad_len = bytes.clone();
    bad_len[40] = 200;
    assert!(decode_blacklist_record(&bad_len).is_none());

    let mut wrong_tag = bytes.clone();
    wrong_tag[0] = 1;
    assert!(decode_blacklist_record(&wrong_tag).is_none());
}

#[test]
fn config_record_round_trip() {
    let config = initialize(
        pk(1),
        pk(9),
        "Tëst Dollar ✓".to_string(),
        "TUSD".to_string(),
        "https://example.invalid/tusd".to_string(),
        6,
        true,
        true,
        false,
    )
    .unwrap();
    let bytes = encode_config_record(&config);
    let back = decode_config_record(&bytes).unwrap();
    assert_eq!(back.master_authority, config.master_authority);
    assert_eq!(back.mint, config.mint);
    assert_eq!(back.name, config.name);
    assert_eq!(back.symbol, config.symbol);
    assert_eq!(back.uri, config.uri);
    assert_eq!(back.decimals, config.decimals);
    assert_eq!(back.paused, config.paused);
    assert_eq!(back.enable_permanent_delegate, config.enable_permanent_delegate);
    assert_eq!(back.enable_transfer_hook, config.enable_transfer_hook);
    assert_eq!(back.default_account_frozen, config.default_account_frozen);
    assert_eq!(back.blacklister, config.blacklister);
    assert_eq!(back.pauser, config.pauser);
    assert_eq!(back.seizer, config.seizer);
}

#[test]
fn config_record_rejects_malformed_bytes() {
    let config = initialize(
        pk(1),
        pk(9),
        "n".to_string(),
        "s".to_string(),
        "u".to_string(),
        6,
        false,
        true,
        false,
    )
    .unwrap();
    let bytes = encode_config_record(&config);

    let mut wrong_tag = bytes.clone();
    wrong_tag[0] = 2;
    assert!(decode_config_record(&wrong_tag).is_none());

    // A flag byte other than zero or one.
    let flags_at = bytes.len() - 100;
    let mut bad_flag = bytes.clone();
    bad_flag[flags_at] = 2;
    assert!(decode_config_record(&bad_flag).is_none());

    let mut padded = bytes.clone();
    padded.push(0);
    assert!(decode_config_record(&padded).is_none());

    assert!(decode_config_record(&bytes[..bytes.len() - 1]).is_none());
}
