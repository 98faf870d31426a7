//! System-wide laws.
//!
//! Each proof function here states a property of the whole design over the
//! outcome functions that the operations' own contracts are written
//! against, so the properties hold of every real execution.

use vstd::prelude::*;

use crate::blacklist::{
    add_to_blacklist_spec, blacklist_wf, entry_index, is_blacklisted, remove_from_blacklist_spec,
    BlacklistEntryView, MAX_REASON_LEN,
};
use crate::config::{authorized, transfer_authority_spec, update_roles_spec, ConfigView};
use crate::enforcement::{freeze_spec, seize_spec, thaw_spec};
use crate::error::StablecoinError;
use crate::hook::{execute_spec, TransferHookData};
use crate::ledger::TokenAccountInfo;
use crate::minter::{
    add_minter_spec, burn_spec, has_minter, minter_index, minter_of, minters_wf, mint_spec,
    remove_minter_spec, update_minter_quota_spec, MinterInfo,
};
use crate::pubkey::Pubkey;

verus! {

/// Whether one issuance of `amount` is admissible for the record: the
/// cumulative counter stays under the quota.
pub open spec fn issue_ok(m: MinterInfo, amount: u64) -> bool {
    m.minted + amount <= m.quota
}

/// The record after one successful issuance of `amount`.
pub open spec fn issue_step(m: MinterInfo, amount: u64) -> MinterInfo {
    MinterInfo { minted: (m.minted + amount) as u64, ..m }
}

/// Whether every issuance in the sequence succeeds, each against the state
/// the previous ones left.
pub open spec fn issues_all_ok(m: MinterInfo, amounts: Seq<u64>) -> bool
    decreases amounts.len(),
{
    amounts.len() == 0 || (issue_ok(m, amounts.first()) && issues_all_ok(
        issue_step(m, amounts.first()),
        amounts.drop_first(),
    ))
}

/// The record after a sequence of issuances.
pub open spec fn apply_issues(m: MinterInfo, amounts: Seq<u64>) -> MinterInfo
    decreases amounts.len(),
{
    if amounts.len() == 0 {
        m
    } else {
        apply_issues(issue_step(m, amounts.first()), amounts.drop_first())
    }
}

/// A successful issuance is exactly one `issue_step` on the issuer's
/// record, so `apply_issues` describes every real run of successful issues.
pub proof fn lemma_mint_ok_is_issue_step(
    cfg: ConfigView,
    minters: Seq<MinterInfo>,
    minter: Pubkey,
    token_account: Pubkey,
    amount: u64,
)
    requires
        has_minter(minters, minter),
        !cfg.paused,
        issue_ok(minter_of(minters, minter), amount),
    ensures
        mint_spec(cfg, minters, minter, token_account, amount).0 == minters.update(
            minter_index(minters, minter),
            issue_step(minter_of(minters, minter), amount),
        ),
        mint_spec(cfg, minters, minter, token_account, amount).1 is Ok,
{
}

/// After any sequence of successful issuances against a record that starts
/// within its quota, the cumulative counter still does not exceed the
/// quota — whatever the amounts were.
pub proof fn lemma_issue_sequence_respects_quota(m: MinterInfo, amounts: Seq<u64>)
    requires
        m.minted <= m.quota,
        issues_all_ok(m, amounts),
    ensures
        apply_issues(m, amounts).minted <= apply_issues(m, amounts).quota,
    decreases amounts.len(),
{
    if amounts.len() > 0 {
        lemma_issue_sequence_respects_quota(issue_step(m, amounts.first()), amounts.drop_first());
    }
}

/// Issuance past the quota fails with `QuotaExceeded`, and any failing
/// issuance leaves the registry exactly as it was.
pub proof fn lemma_issue_quota_exceeded_unchanged(
    cfg: ConfigView,
    minters: Seq<MinterInfo>,
    minter: Pubkey,
    token_account: Pubkey,
    amount: u64,
)
    ensures
        has_minter(minters, minter) && !cfg.paused && minter_of(minters, minter).minted + amount
            > minter_of(minters, minter).quota ==> mint_spec(
            cfg,
            minters,
            minter,
            token_account,
            amount,
        ) == (minters, Err::<crate::ledger::LedgerOp, StablecoinError>(
            StablecoinError::QuotaExceeded,
        )),
        mint_spec(cfg, minters, minter, token_account, amount).1 is Err ==> mint_spec(
            cfg,
            minters,
            minter,
            token_account,
            amount,
        ).0 == minters,
{
}

/// The instrument pause flag blocks issuance and redemption with
/// `TokenPaused`, and blocks nothing else: freeze and thaw always produce
/// their command, and seizure decides without looking at the flag.
pub proof fn lemma_pause_blocks_issue_and_redeem_only(
    cfg: ConfigView,
    minters: Seq<MinterInfo>,
    minter: Pubkey,
    token_account: Pubkey,
    dest_token: Pubkey,
    authority: Pubkey,
    amount: u64,
)
    requires
        cfg.paused,
        has_minter(minters, minter),
    ensures
        mint_spec(cfg, minters, minter, token_account, amount) == (minters, Err::<
            crate::ledger::LedgerOp,
            StablecoinError,
        >(StablecoinError::TokenPaused)),
        burn_spec(cfg, token_account, authority, amount) == Err::<
            crate::ledger::LedgerOp,
            StablecoinError,
        >(StablecoinError::TokenPaused),
        freeze_spec(cfg, token_account, authority) is Ok,
        thaw_spec(cfg, token_account, authority) is Ok,
        seize_spec(cfg, authority, token_account, dest_token, amount) == seize_spec(
            (ConfigView { paused: false, ..cfg }),
            authority,
            token_account,
            dest_token,
            amount,
        ),
{
}

/// Restricting and then clearing the same address restores the registry
/// exactly, and clearing an address that holds no record fails with
/// `NotBlacklisted` and changes nothing.
pub proof fn lemma_blacklist_round_trip(
    cfg: ConfigView,
    entries: Seq<BlacklistEntryView>,
    signer: Pubkey,
    user: Pubkey,
    reason: Seq<char>,
    timestamp: i64,
)
    requires
        blacklist_wf(entries),
        authorized(cfg.blacklister, signer),
        cfg.enable_transfer_hook,
        reason.len() <= MAX_REASON_LEN,
        !is_blacklisted(entries, user),
    ensures
        add_to_blacklist_spec(cfg, entries, signer, user, reason, timestamp).1 == Ok::<
            (),
            StablecoinError,
        >(()),
        remove_from_blacklist_spec(
            cfg,
            add_to_blacklist_spec(cfg, entries, signer, user, reason, timestamp).0,
            signer,
            user,
        ) == (entries, Ok::<(), StablecoinError>(())),
        remove_from_blacklist_spec(cfg, entries, signer, user) == (entries, Err::<
            (),
            StablecoinError,
        >(StablecoinError::NotBlacklisted)),
{
    let added = BlacklistEntryView { user, reason, timestamp };
    let e2 = entries.push(added);
    assert(add_to_blacklist_spec(cfg, entries, signer, user, reason, timestamp).0 == e2);
    assert(e2[entries.len() as int].user == user);
    assert(blacklist_wf(e2)) by {
        assert forall|i: int, j: int|
            0 <= i < e2.len() && 0 <= j < e2.len() && i != j implies e2[i].user != e2[j].user by {
            if i < entries.len() && j < entries.len() {
                assert(e2[i] == entries[i] && e2[j] == entries[j]);
            }
        }
    }
    crate::blacklist::lemma_entry_index_unique(e2, user, entries.len() as int);
    assert(e2.remove(entry_index(e2, user)) =~= entries);
}

/// The hook rejects a transfer exactly when a compliance record exists for
/// the source owner or for the destination owner at the time of the check;
/// a sender record is reported first.
pub proof fn lemma_hook_rejects_iff_record_exists(
    hook: TransferHookData,
    entries: Seq<BlacklistEntryView>,
    source: TokenAccountInfo,
    dest: TokenAccountInfo,
)
    requires
        source.mint == hook.mint,
        dest.mint == hook.mint,
        !hook.paused,
    ensures
        execute_spec(hook, entries, source, dest) is Err <==> is_blacklisted(
            entries,
            source.owner,
        ) || is_blacklisted(entries, dest.owner),
        execute_spec(hook, entries, source, dest) == (if is_blacklisted(entries, source.owner) {
            Err::<(), crate::error::TransferHookError>(
                crate::error::TransferHookError::SenderBlacklisted,
            )
        } else if is_blacklisted(entries, dest.owner) {
            Err::<(), crate::error::TransferHookError>(
                crate::error::TransferHookError::RecipientBlacklisted,
            )
        } else {
            Ok::<(), crate::error::TransferHookError>(())
        }),
{
}

/// The hook is agnostic to record content: two registries that restrict the
/// same addresses drive it to the same verdict, whatever the records say.
pub proof fn lemma_hook_content_agnostic(
    hook: TransferHookData,
    e1: Seq<BlacklistEntryView>,
    e2: Seq<BlacklistEntryView>,
    source: TokenAccountInfo,
    dest: TokenAccountInfo,
)
    requires
        forall|u: Pubkey| is_blacklisted(e1, u) <==> is_blacklisted(e2, u),
    ensures
        execute_spec(hook, e1, source, dest) == execute_spec(hook, e2, source, dest),
{
    assert(is_blacklisted(e1, source.owner) <==> is_blacklisted(e2, source.owner));
    assert(is_blacklisted(e1, dest.owner) <==> is_blacklisted(e2, dest.owner));
}

/// Only the recorded master authority may alter roles, hand the master
/// authority on, or administer issuer quotas; any other signer fails with
/// `Unauthorized` and changes nothing, and the master authority itself is
/// never refused.
pub proof fn lemma_only_master_authority_governs(
    cfg: ConfigView,
    minters: Seq<MinterInfo>,
    signer: Pubkey,
    new_blacklister: Pubkey,
    new_pauser: Pubkey,
    new_seizer: Pubkey,
    new_master: Pubkey,
    minter: Pubkey,
    quota: u64,
)
    ensures
        signer != cfg.master_authority ==> update_roles_spec(
            cfg,
            signer,
            new_blacklister,
            new_pauser,
            new_seizer,
        ) == (cfg, Err::<(), StablecoinError>(StablecoinError::Unauthorized)),
        signer != cfg.master_authority ==> transfer_authority_spec(cfg, signer, new_master) == (
            cfg,
            Err::<(), StablecoinError>(StablecoinError::Unauthorized),
        ),
        signer != cfg.master_authority ==> add_minter_spec(cfg, minters, signer, minter, quota)
            == (minters, Err::<(), StablecoinError>(StablecoinError::Unauthorized)),
        signer != cfg.master_authority ==> update_minter_quota_spec(
            cfg,
            minters,
            signer,
            minter,
            quota,
        ) == (minters, Err::<(), StablecoinError>(StablecoinError::Unauthorized)),
        signer != cfg.master_authority ==> remove_minter_spec(cfg, minters, signer, minter) == (
            minters,
            Err::<(), StablecoinError>(StablecoinError::Unauthorized),
        ),
        signer == cfg.master_authority ==> update_roles_spec(
            cfg,
            signer,
            new_blacklister,
            new_pauser,
            new_seizer,
        ).1 is Ok && transfer_authority_spec(cfg, signer, new_master).1 is Ok,
{
}

} // verus!
