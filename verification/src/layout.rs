//! Persisted record layout.
//!
//! Each record kind is stored as one byte string: an 8-byte type
//! discriminator, then the record's fields in the order of the data model.
//! Integers are little-endian, identities 32 bytes, flags one byte, and
//! every text field a 4-byte length prefix followed by its UTF-8 bytes,
//! bounded by the field's maximum.  Parsing accepts exactly the encodings
//! and is proved the inverse of encoding.

use vstd::prelude::*;
use vstd::string::StrSliceExecFns;
use vstd::utf8::{decode_utf8, encode_utf8};

use crate::blacklist::{BlacklistEntry, BlacklistEntryView, MAX_REASON_LEN};
use crate::codec::{
    bool_byte, i64_as_u64, i64_to_u64, lemma_encode_utf8_len, lemma_i64_u64_inverse,
    lemma_concat_parts, lemma_parse_str_field_exact, lemma_pubkey_le_inverse,
    lemma_assemble_pieces, lemma_pubkey_of_le_inverse, lemma_str_field_canonical,
    lemma_u32_of_le_inverse, lemma_u64_le_inverse, lemma_u64_of_le_inverse, parse_str_field,
    pubkey_le, pubkey_of_le,
    push_bool, push_pubkey, push_str_field, push_u64_le, read_pubkey, read_str_field, read_u64_le,
    str_field, u32_of_le, u64_as_i64, u64_le, u64_of_le, u64_to_i64,
};
use crate::config::{ConfigView, StablecoinConfig, MAX_NAME_LEN, MAX_SYMBOL_LEN, MAX_URI_LEN};
use crate::hook::TransferHookData;
use crate::minter::MinterInfo;

verus! {

/// Discriminator of an instrument configuration record.
pub const CONFIG_RECORD_TAG: u64 = 1;

/// Discriminator of an issuer quota record.
pub const MINTER_RECORD_TAG: u64 = 2;

/// Discriminator of a compliance record.
pub const BLACKLIST_RECORD_TAG: u64 = 3;

/// Discriminator of a hook configuration record.
pub const HOOK_RECORD_TAG: u64 = 4;

/// A stored flag byte holds zero or one.
pub open spec fn valid_flag(x: u8) -> bool {
    x == 0 || x == 1
}

/// Display fields within their maxima — an invariant of every live
/// configuration record.
pub open spec fn config_view_wf(c: ConfigView) -> bool {
    c.name.len() <= MAX_NAME_LEN && c.symbol.len() <= MAX_SYMBOL_LEN && c.uri.len() <= MAX_URI_LEN
}

// ===== Issuer quota records =====

/// The stored bytes of an issuer quota record.
pub open spec fn minter_record_bytes(m: MinterInfo) -> Seq<u8> {
    u64_le(MINTER_RECORD_TAG) + pubkey_le(m.authority) + u64_le(m.quota) + u64_le(m.minted)
}

/// What parsing an issuer quota record yields.
pub open spec fn parse_minter_record(b: Seq<u8>) -> Option<MinterInfo> {
    if b.len() == 56 && u64_of_le(b.subrange(0, 8)) == MINTER_RECORD_TAG {
        Some(
            MinterInfo {
                authority: pubkey_of_le(b.subrange(8, 40)),
                quota: u64_of_le(b.subrange(40, 48)),
                minted: u64_of_le(b.subrange(48, 56)),
            },
        )
    } else {
        None
    }
}

/// Writes an issuer quota record.
pub fn encode_minter_record(m: &MinterInfo) -> (r: Vec<u8>)
    ensures
        r@ == minter_record_bytes(*m),
{
    let mut out: Vec<u8> = Vec::new();
    push_u64_le(&mut out, MINTER_RECORD_TAG);
    push_pubkey(&mut out, m.authority);
    push_u64_le(&mut out, m.quota);
    push_u64_le(&mut out, m.minted);
    proof {
        assert(out@ =~= minter_record_bytes(*m));
    }
    out
}

/// Reads an issuer quota record back.
pub fn decode_minter_record(b: &[u8]) -> (r: Option<MinterInfo>)
    ensures
        r == parse_minter_record(b@),
{
    if b.len() != 56 {
        return None;
    }
    let tag = read_u64_le(b, 0);
    if tag != MINTER_RECORD_TAG {
        return None;
    }
    let authority = read_pubkey(b, 8);
    let quota = read_u64_le(b, 40);
    let minted = read_u64_le(b, 48);
    Some(MinterInfo { authority, quota, minted })
}

/// Parsing an encoded issuer quota record yields the record.
pub proof fn lemma_minter_record_round_trip(m: MinterInfo)
    ensures
        parse_minter_record(minter_record_bytes(m)) == Some(m),
{
    let b = minter_record_bytes(m);
    lemma_u64_le_inverse(MINTER_RECORD_TAG);
    lemma_pubkey_le_inverse(m.authority);
    lemma_u64_le_inverse(m.quota);
    lemma_u64_le_inverse(m.minted);
    assert(b.subrange(0, 8) =~= u64_le(MINTER_RECORD_TAG));
    assert(b.subrange(8, 40) =~= pubkey_le(m.authority));
    assert(b.subrange(40, 48) =~= u64_le(m.quota));
    assert(b.subrange(48, 56) =~= u64_le(m.minted));
}

/// Any bytes a quota record parses out of are exactly that record's
/// encoding: the layout is canonical.
pub proof fn lemma_minter_record_canonical(b: Seq<u8>)
    requires
        parse_minter_record(b) is Some,
    ensures
        minter_record_bytes(parse_minter_record(b).unwrap()) =~= b,
{
    lemma_u64_of_le_inverse(b.subrange(0, 8));
    lemma_pubkey_of_le_inverse(b.subrange(8, 40));
    lemma_u64_of_le_inverse(b.subrange(40, 48));
    lemma_u64_of_le_inverse(b.subrange(48, 56));
    assert(b =~= b.subrange(0, 8) + b.subrange(8, 40) + b.subrange(40, 48) + b.subrange(48, 56));
}

// ===== Hook configuration records =====

/// The stored bytes of a hook configuration record.
pub open spec fn hook_record_bytes(h: TransferHookData) -> Seq<u8> {
    u64_le(HOOK_RECORD_TAG) + pubkey_le(h.mint) + pubkey_le(h.stablecoin_program) + pubkey_le(
        h.authority,
    ) + seq![bool_byte(h.paused)]
}

/// What parsing a hook configuration record yields.
pub open spec fn parse_hook_record(b: Seq<u8>) -> Option<TransferHookData> {
    if b.len() == 105 && u64_of_le(b.subrange(0, 8)) == HOOK_RECORD_TAG && valid_flag(b[104]) {
        Some(
            TransferHookData {
                mint: pubkey_of_le(b.subrange(8, 40)),
                stablecoin_program: pubkey_of_le(b.subrange(40, 72)),
                authority: pubkey_of_le(b.subrange(72, 104)),
                paused: b[104] == 1,
            },
        )
    } else {
        None
    }
}

/// Writes a hook configuration record.
pub fn encode_hook_record(h: &TransferHookData) -> (r: Vec<u8>)
    ensures
        r@ == hook_record_bytes(*h),
{
    let mut out: Vec<u8> = Vec::new();
    push_u64_le(&mut out, HOOK_RECORD_TAG);
    push_pubkey(&mut out, h.mint);
    push_pubkey(&mut out, h.stablecoin_program);
    push_pubkey(&mut out, h.authority);
    push_bool(&mut out, h.paused);
    proof {
        assert(out@ =~= hook_record_bytes(*h));
    }
    out
}

/// Reads a hook configuration record back.
pub fn decode_hook_record(b: &[u8]) -> (r: Option<TransferHookData>)
    ensures
        r == parse_hook_record(b@),
{
    if b.len() != 105 {
        return None;
    }
    let tag = read_u64_le(b, 0);
    if tag != HOOK_RECORD_TAG {
        return None;
    }
    let flag = b[104];
    if flag > 1 {
        return None;
    }
    let mint = read_pubkey(b, 8);
    let stablecoin_program = read_pubkey(b, 40);
    let authority = read_pubkey(b, 72);
    Some(TransferHookData { stablecoin_program, mint, authority, paused: flag == 1 })
}

/// Parsing an encoded hook configuration record yields the record.
pub proof fn lemma_hook_record_round_trip(h: TransferHookData)
    ensures
        parse_hook_record(hook_record_bytes(h)) == Some(h),
{
    let b = hook_record_bytes(h);
    lemma_u64_le_inverse(HOOK_RECORD_TAG);
    lemma_pubkey_le_inverse(h.mint);
    lemma_pubkey_le_inverse(h.stablecoin_program);
    lemma_pubkey_le_inverse(h.authority);
    assert(b.subrange(0, 8) =~= u64_le(HOOK_RECORD_TAG));
    assert(b.subrange(8, 40) =~= pubkey_le(h.mint));
    assert(b.subrange(40, 72) =~= pubkey_le(h.stablecoin_program));
    assert(b.subrange(72, 104) =~= pubkey_le(h.authority));
    assert(b[104] == bool_byte(h.paused));
}

/// The hook record layout is canonical.
pub proof fn lemma_hook_record_canonical(b: Seq<u8>)
    requires
        parse_hook_record(b) is Some,
    ensures
        hook_record_bytes(parse_hook_record(b).unwrap()) =~= b,
{
    lemma_u64_of_le_inverse(b.subrange(0, 8));
    lemma_pubkey_of_le_inverse(b.subrange(8, 40));
    lemma_pubkey_of_le_inverse(b.subrange(40, 72));
    lemma_pubkey_of_le_inverse(b.subrange(72, 104));
    assert(b =~= b.subrange(0, 8) + b.subrange(8, 40) + b.subrange(40, 72) + b.subrange(72, 104)
        + seq![b[104]]);
}

// ===== Compliance records =====

/// The stored bytes of a compliance record.
pub open spec fn blacklist_record_bytes(e: BlacklistEntryView) -> Seq<u8>
    recommends
        e.reason.len() <= MAX_REASON_LEN,
{
    u64_le(BLACKLIST_RECORD_TAG) + pubkey_le(e.user) + str_field(e.reason) + u64_le(
        i64_as_u64(e.timestamp),
    )
}

/// What parsing a compliance record yields.
pub open spec fn parse_blacklist_record(b: Seq<u8>) -> Option<BlacklistEntryView> {
    if b.len() < 40 || u64_of_le(b.subrange(0, 8)) != BLACKLIST_RECORD_TAG {
        None
    } else {
        match parse_str_field(b, 40) {
            None => None,
            Some(f) => {
                if f.0.len() > MAX_REASON_LEN || b.len() != f.1 + 8 {
                    None
                } else {
                    Some(
                        BlacklistEntryView {
                            user: pubkey_of_le(b.subrange(8, 40)),
                            reason: f.0,
                            timestamp: u64_as_i64(u64_of_le(b.subrange(f.1, f.1 + 8))),
                        },
                    )
                }
            },
        }
    }
}

/// Writes a compliance record.
pub fn encode_blacklist_record(e: &BlacklistEntry) -> (r: Vec<u8>)
    requires
        e.reason@.len() <= MAX_REASON_LEN,
    ensures
        r@ == blacklist_record_bytes(e@),
{
    let mut out: Vec<u8> = Vec::new();
    push_u64_le(&mut out, BLACKLIST_RECORD_TAG);
    push_pubkey(&mut out, e.user);
    push_str_field(&mut out, e.reason.as_str());
    push_u64_le(&mut out, i64_to_u64(e.timestamp));
    proof {
        assert(out@ =~= blacklist_record_bytes(e@));
    }
    out
}

/// Reads a compliance record back.
pub fn decode_blacklist_record(b: &[u8]) -> (r: Option<BlacklistEntry>)
    ensures
        match r {
            Some(e) => parse_blacklist_record(b@) == Some(e@),
            None => parse_blacklist_record(b@) is None,
        },
{
    let n: usize = b.len();
    if n < 40 {
        return None;
    }
    let tag = read_u64_le(b, 0);
    if tag != BLACKLIST_RECORD_TAG {
        return None;
    }
    match read_str_field(b, 40) {
        None => None,
        Some(f) => {
            let (reason, next) = f;
            if reason.unicode_len() > MAX_REASON_LEN {
                return None;
            }
            if n - next != 8 {
                return None;
            }
            let user = read_pubkey(b, 8);
            let timestamp = u64_to_i64(read_u64_le(b, next));
            Some(BlacklistEntry { user, reason, timestamp })
        },
    }
}

/// Parsing an encoded compliance record yields the record.
pub proof fn lemma_blacklist_record_round_trip(e: BlacklistEntryView)
    requires
        e.reason.len() <= MAX_REASON_LEN,
    ensures
        parse_blacklist_record(blacklist_record_bytes(e)) == Some(e),
{
    broadcast use vstd::utf8::encode_utf8_decode_utf8;

    lemma_encode_utf8_len(e.reason);
    let b = blacklist_record_bytes(e);
    let n = encode_utf8(e.reason).len() as int;
    lemma_u64_le_inverse(BLACKLIST_RECORD_TAG);
    lemma_pubkey_le_inverse(e.user);
    assert(b.subrange(0, 8) =~= u64_le(BLACKLIST_RECORD_TAG));
    assert(b.subrange(8, 40) =~= pubkey_le(e.user));
    assert(b.subrange(40, 44 + n) =~= str_field(e.reason));
    lemma_parse_str_field_exact(b, 40, e.reason);
    assert(b.subrange(44 + n, 52 + n) =~= u64_le(i64_as_u64(e.timestamp)));
    lemma_u64_le_inverse(i64_as_u64(e.timestamp));
    lemma_i64_u64_inverse(e.timestamp, 0);
}

/// The compliance record layout is canonical: any bytes a record parses
/// out of are exactly that record's encoding.
pub proof fn lemma_blacklist_record_canonical(b: Seq<u8>)
    requires
        parse_blacklist_record(b) is Some,
    ensures
        blacklist_record_bytes(parse_blacklist_record(b).unwrap()) =~= b,
{
    broadcast use vstd::utf8::decode_utf8_encode_utf8;

    let f = parse_str_field(b, 40).unwrap();
    let n = u32_of_le(b.subrange(40, 44)) as int;
    assert(f.0 == decode_utf8(b.subrange(44, 44 + n)) && f.1 == 44 + n);
    lemma_u64_of_le_inverse(b.subrange(0, 8));
    lemma_pubkey_of_le_inverse(b.subrange(8, 40));
    lemma_u32_of_le_inverse(b.subrange(40, 44));
    lemma_u64_of_le_inverse(b.subrange(44 + n, 52 + n));
    lemma_i64_u64_inverse(0, u64_of_le(b.subrange(44 + n, 52 + n)));
    assert(encode_utf8(f.0) == b.subrange(44, 44 + n));
    assert(blacklist_record_bytes(parse_blacklist_record(b).unwrap()) =~= b);
}

// ===== Instrument configuration records =====

/// The stored bytes of an instrument configuration record.
pub open spec fn config_record_bytes(c: ConfigView) -> Seq<u8>
    recommends
        config_view_wf(c),
{
    u64_le(CONFIG_RECORD_TAG) + pubkey_le(c.master_authority) + pubkey_le(c.mint)
        + seq![c.decimals] + str_field(c.name) + str_field(c.symbol) + str_field(c.uri)
        + seq![
        bool_byte(c.paused),
        bool_byte(c.enable_permanent_delegate),
        bool_byte(c.enable_transfer_hook),
        bool_byte(c.default_account_frozen),
    ] + pubkey_le(c.blacklister) + pubkey_le(c.pauser) + pubkey_le(c.seizer)
}

/// What parsing an instrument configuration record yields.
pub open spec fn parse_config_record(b: Seq<u8>) -> Option<ConfigView> {
    if b.len() < 73 || u64_of_le(b.subrange(0, 8)) != CONFIG_RECORD_TAG {
        None
    } else {
        match parse_str_field(b, 73) {
            None => None,
            Some(nf) => {
                if nf.0.len() > MAX_NAME_LEN {
                    None
                } else {
                    match parse_str_field(b, nf.1) {
                        None => None,
                        Some(sf) => {
                            if sf.0.len() > MAX_SYMBOL_LEN {
                                None
                            } else {
                                match parse_str_field(b, sf.1) {
                                    None => None,
                                    Some(uf) => parse_config_tail(b, nf.0, sf.0, uf),
                                }
                            }
                        },
                    }
                }
            },
        }
    }
}

/// The tail of a configuration record, after the text fields: four flag
/// bytes, then the three role identities.
pub open spec fn parse_config_tail(
    b: Seq<u8>,
    name: Seq<char>,
    symbol: Seq<char>,
    uf: (Seq<char>, int),
) -> Option<ConfigView> {
    let o = uf.1;
    if uf.0.len() > MAX_URI_LEN || b.len() != o + 100 {
        None
    } else if !(valid_flag(b[o]) && valid_flag(b[o + 1]) && valid_flag(b[o + 2]) && valid_flag(
        b[o + 3],
    )) {
        None
    } else {
        Some(
            ConfigView {
                master_authority: pubkey_of_le(b.subrange(8, 40)),
                mint: pubkey_of_le(b.subrange(40, 72)),
                name,
                symbol,
                uri: uf.0,
                decimals: b[72],
                paused: b[o] == 1,
                enable_permanent_delegate: b[o + 1] == 1,
                enable_transfer_hook: b[o + 2] == 1,
                default_account_frozen: b[o + 3] == 1,
                blacklister: pubkey_of_le(b.subrange(o + 4, o + 36)),
                pauser: pubkey_of_le(b.subrange(o + 36, o + 68)),
                seizer: pubkey_of_le(b.subrange(o + 68, o + 100)),
            },
        )
    }
}

/// Writes an instrument configuration record.
pub fn encode_config_record(c: &StablecoinConfig) -> (r: Vec<u8>)
    requires
        config_view_wf(c@),
    ensures
        r@ == config_record_bytes(c@),
{
    let mut out: Vec<u8> = Vec::new();
    push_u64_le(&mut out, CONFIG_RECORD_TAG);
    push_pubkey(&mut out, c.master_authority);
    push_pubkey(&mut out, c.mint);
    out.push(c.decimals);
    push_str_field(&mut out, c.name.as_str());
    push_str_field(&mut out, c.symbol.as_str());
    push_str_field(&mut out, c.uri.as_str());
    push_bool(&mut out, c.paused);
    push_bool(&mut out, c.enable_permanent_delegate);
    push_bool(&mut out, c.enable_transfer_hook);
    push_bool(&mut out, c.default_account_frozen);
    push_pubkey(&mut out, c.blacklister);
    push_pubkey(&mut out, c.pauser);
    push_pubkey(&mut out, c.seizer);
    proof {
        assert(out@ =~= config_record_bytes(c@));
    }
    out
}

/// Reads an instrument configuration record back.
pub fn decode_config_record(b: &[u8]) -> (r: Option<StablecoinConfig>)
    ensures
        match r {
            Some(c) => parse_config_record(b@) == Some(c@),
            None => parse_config_record(b@) is None,
        },
{
    let n: usize = b.len();
    if n < 73 {
        return None;
    }
    let tag = read_u64_le(b, 0);
    if tag != CONFIG_RECORD_TAG {
        return None;
    }
    let (name, o1) = match read_str_field(b, 73) {
        None => {
            return None;
        },
        Some(f) => f,
    };
    if name.unicode_len() > MAX_NAME_LEN {
        return None;
    }
    let (symbol, o2) = match read_str_field(b, o1) {
        None => {
            return None;
        },
        Some(f) => f,
    };
    if symbol.unicode_len() > MAX_SYMBOL_LEN {
        return None;
    }
    let (uri, o3) = match read_str_field(b, o2) {
        None => {
            return None;
        },
        Some(f) => f,
    };
    if uri.unicode_len() > MAX_URI_LEN {
        return None;
    }
    if n - o3 != 100 {
        return None;
    }
    let f0 = b[o3];
    let f1 = b[o3 + 1];
    let f2 = b[o3 + 2];
    let f3 = b[o3 + 3];
    if f0 > 1 || f1 > 1 || f2 > 1 || f3 > 1 {
        return None;
    }
    let master_authority = read_pubkey(b, 8);
    let mint = read_pubkey(b, 40);
    let decimals = b[72];
    let blacklister = read_pubkey(b, o3 + 4);
    let pauser = read_pubkey(b, o3 + 36);
    let seizer = read_pubkey(b, o3 + 68);
    Some(
        StablecoinConfig {
            master_authority,
            mint,
            name,
            symbol,
            uri,
            decimals,
            paused: f0 == 1,
            enable_permanent_delegate: f1 == 1,
            enable_transfer_hook: f2 == 1,
            default_account_frozen: f3 == 1,
            blacklister,
            pauser,
            seizer,
        },
    )
}

/// Parsing an encoded configuration record yields the record.
#[verifier::rlimit(100)]
pub proof fn lemma_config_record_round_trip(c: ConfigView)
    requires
        config_view_wf(c),
    ensures
        parse_config_record(config_record_bytes(c)) == Some(c),
{
    broadcast use vstd::utf8::encode_utf8_decode_utf8;

    lemma_encode_utf8_len(c.name);
    lemma_encode_utf8_len(c.symbol);
    lemma_encode_utf8_len(c.uri);
    let b = config_record_bytes(c);
    let nn = encode_utf8(c.name).len() as int;
    let ns = encode_utf8(c.symbol).len() as int;
    let nu = encode_utf8(c.uri).len() as int;
    let o = 85 + nn + ns + nu;
    lemma_u64_le_inverse(CONFIG_RECORD_TAG);
    lemma_pubkey_le_inverse(c.master_authority);
    lemma_pubkey_le_inverse(c.mint);
    lemma_pubkey_le_inverse(c.blacklister);
    lemma_pubkey_le_inverse(c.pauser);
    lemma_pubkey_le_inverse(c.seizer);
    // Peel the concatenation one piece at a time, rightmost first.
    let flags = seq![
        bool_byte(c.paused),
        bool_byte(c.enable_permanent_delegate),
        bool_byte(c.enable_transfer_hook),
        bool_byte(c.default_account_frozen),
    ];
    let p1 = u64_le(CONFIG_RECORD_TAG);
    let p2 = p1 + pubkey_le(c.master_authority);
    let p3 = p2 + pubkey_le(c.mint);
    let p4 = p3 + seq![c.decimals];
    let p5 = p4 + str_field(c.name);
    let p6 = p5 + str_field(c.symbol);
    let p7 = p6 + str_field(c.uri);
    let p8 = p7 + flags;
    let p9 = p8 + pubkey_le(c.blacklister);
    let p10 = p9 + pubkey_le(c.pauser);
    lemma_concat_parts(b, p10, pubkey_le(c.seizer));
    lemma_concat_parts(p10, p9, pubkey_le(c.pauser));
    lemma_concat_parts(p9, p8, pubkey_le(c.blacklister));
    lemma_concat_parts(p8, p7, flags);
    lemma_concat_parts(p7, p6, str_field(c.uri));
    lemma_concat_parts(p6, p5, str_field(c.symbol));
    lemma_concat_parts(p5, p4, str_field(c.name));
    lemma_concat_parts(p4, p3, seq![c.decimals]);
    lemma_concat_parts(p3, p2, pubkey_le(c.mint));
    lemma_concat_parts(p2, p1, pubkey_le(c.master_authority));
    assert(p1.subrange(0, 8) =~= p1);
    assert(b.len() == o + 100);
    assert(b.subrange(0, 8) == p1);
    assert(b.subrange(8, 40) == pubkey_le(c.master_authority));
    assert(b.subrange(40, 72) == pubkey_le(c.mint));
    assert(b.subrange(72, 73) == seq![c.decimals]);
    assert(b[72] == b.subrange(72, 73)[0]);
    assert(b.subrange(73, 77 + nn) == str_field(c.name));
    lemma_parse_str_field_exact(b, 73, c.name);
    assert(b.subrange(77 + nn, 81 + nn + ns) == str_field(c.symbol));
    lemma_parse_str_field_exact(b, 77 + nn, c.symbol);
    assert(b.subrange(81 + nn + ns, o) == str_field(c.uri));
    lemma_parse_str_field_exact(b, 81 + nn + ns, c.uri);
    assert(b.subrange(o, o + 4) == flags);
    assert(b[o] == b.subrange(o, o + 4)[0]);
    assert(b[o + 1] == b.subrange(o, o + 4)[1]);
    assert(b[o + 2] == b.subrange(o, o + 4)[2]);
    assert(b[o + 3] == b.subrange(o, o + 4)[3]);
    assert(b.subrange(o + 4, o + 36) == pubkey_le(c.blacklister));
    assert(b.subrange(o + 36, o + 68) == pubkey_le(c.pauser));
    assert(b.subrange(o + 68, o + 100) == pubkey_le(c.seizer));
}

/// Assembles a configuration record's encoding from its pieces.
#[verifier::rlimit(100)]
proof fn lemma_config_canonical_core(b: Seq<u8>, c: ConfigView, n_end: int, s_end: int, o: int)
    requires
        u64_le(CONFIG_RECORD_TAG) == b.subrange(0, 8),
        pubkey_le(c.master_authority) == b.subrange(8, 40),
        pubkey_le(c.mint) == b.subrange(40, 72),
        (seq![c.decimals]) == b.subrange(72, 73),
        str_field(c.name) == b.subrange(73, n_end),
        str_field(c.symbol) == b.subrange(n_end, s_end),
        str_field(c.uri) == b.subrange(s_end, o),
        (seq![
            bool_byte(c.paused),
            bool_byte(c.enable_permanent_delegate),
            bool_byte(c.enable_transfer_hook),
            bool_byte(c.default_account_frozen),
        ]) == b.subrange(o, o + 4),
        pubkey_le(c.blacklister) == b.subrange(o + 4, o + 36),
        pubkey_le(c.pauser) == b.subrange(o + 36, o + 68),
        pubkey_le(c.seizer) == b.subrange(o + 68, o + 100),
        73 <= n_end <= s_end <= o,
        b.len() == o + 100,
    ensures
        config_record_bytes(c) == b,
{
    let s8 = seq![
        bool_byte(c.paused),
        bool_byte(c.enable_permanent_delegate),
        bool_byte(c.enable_transfer_hook),
        bool_byte(c.default_account_frozen),
    ];
    lemma_assemble_pieces(
        b,
        u64_le(CONFIG_RECORD_TAG),
        pubkey_le(c.master_authority),
        pubkey_le(c.mint),
        seq![c.decimals],
        str_field(c.name),
        str_field(c.symbol),
        str_field(c.uri),
        s8,
        pubkey_le(c.blacklister),
        pubkey_le(c.pauser),
        pubkey_le(c.seizer),
    );
}

/// The configuration record layout is canonical: any bytes a record parses
/// out of are exactly that record's encoding.
#[verifier::rlimit(100)]
#[verifier::spinoff_prover]
pub proof fn lemma_config_record_canonical(b: Seq<u8>)
    requires
        parse_config_record(b) is Some,
    ensures
        config_record_bytes(parse_config_record(b).unwrap()) =~= b,
{
    let nf = parse_str_field(b, 73).unwrap();
    let sf = parse_str_field(b, nf.1).unwrap();
    let uf = parse_str_field(b, sf.1).unwrap();
    let o = uf.1;
    lemma_str_field_canonical(b, 73);
    lemma_str_field_canonical(b, nf.1);
    lemma_str_field_canonical(b, sf.1);
    lemma_u64_of_le_inverse(b.subrange(0, 8));
    lemma_pubkey_of_le_inverse(b.subrange(8, 40));
    lemma_pubkey_of_le_inverse(b.subrange(40, 72));
    lemma_pubkey_of_le_inverse(b.subrange(o + 4, o + 36));
    lemma_pubkey_of_le_inverse(b.subrange(o + 36, o + 68));
    lemma_pubkey_of_le_inverse(b.subrange(o + 68, o + 100));
    let c = parse_config_record(b).unwrap();
    assert(c.name == nf.0 && c.symbol == sf.0 && c.uri == uf.0);
    assert(b.len() == o + 100);
    assert((seq![c.decimals]) =~= b.subrange(72, 73));
    assert((seq![
        bool_byte(c.paused),
        bool_byte(c.enable_permanent_delegate),
        bool_byte(c.enable_transfer_hook),
        bool_byte(c.default_account_frozen),
    ]) =~= b.subrange(o, o + 4));
    lemma_config_canonical_core(b, c, nf.1, sf.1, o);
}

} // verus!
