//! Issuer quotas: the per-issuer mint ledger, issuance and redemption.
//!
//! One quota record exists per authorized issuer of an instrument.  The
//! quota is a ceiling on *cumulative* issuance: redemption never gives quota
//! back, and revoking an issuer zeroes the quota while keeping the issued
//! counter as audit history.  Issuance combines the quota check, the counter
//! increment and the ledger mint command in one operation; the host applies
//! them atomically.

use vstd::prelude::*;
use vstd::pervasive::VecAdditionalExecFns;

use crate::config::{authorized, require_role, ConfigView, StablecoinConfig};
use crate::error::StablecoinError;
use crate::ledger::LedgerOp;
use crate::pubkey::Pubkey;

verus! {

/// The quota record of one issuer.
#[derive(Clone, Copy, Debug, PartialEq, Eq, Structural)]
pub struct MinterInfo {
    /// The issuing identity this record belongs to.
    pub authority: Pubkey,
    /// Ceiling on cumulative issuance.  May be raised or lowered at any
    /// time; lowering it below `minted` blocks further issuance without
    /// touching the audit counter.
    pub quota: u64,
    /// Cumulative amount issued.  Only ever increases.
    pub minted: u64,
}

/// There is at most one record per issuing identity.
pub open spec fn minters_wf(s: Seq<MinterInfo>) -> bool {
    forall|i: int, j: int|
        0 <= i < s.len() && 0 <= j < s.len() && i != j ==> s[i].authority != s[j].authority
}

/// Whether a record exists for the identity.
pub open spec fn has_minter(s: Seq<MinterInfo>, a: Pubkey) -> bool {
    exists|i: int| 0 <= i < s.len() && s[i].authority == a
}

/// The position of the identity's record.
pub open spec fn minter_index(s: Seq<MinterInfo>, a: Pubkey) -> int {
    choose|i: int| 0 <= i < s.len() && s[i].authority == a
}

/// The identity's record.
pub open spec fn minter_of(s: Seq<MinterInfo>, a: Pubkey) -> MinterInfo {
    s[minter_index(s, a)]
}

/// In a well-formed registry, any position holding the identity's record is
/// the position `minter_index` names.
pub proof fn lemma_minter_index_unique(s: Seq<MinterInfo>, a: Pubkey, i: int)
    requires
        minters_wf(s),
        0 <= i < s.len(),
        s[i].authority == a,
    ensures
        minter_index(s, a) == i,
        has_minter(s, a),
        minter_of(s, a) == s[i],
{
    assert(has_minter(s, a));
    let j = minter_index(s, a);
    assert(0 <= j < s.len() && s[j].authority == a);
    if i != j {
        assert(s[i].authority != s[j].authority);
    }
}

/// The registry of issuer quota records for one instrument.
pub struct MinterRegistry {
    minters: Vec<MinterInfo>,
}

impl View for MinterRegistry {
    type V = Seq<MinterInfo>;

    closed spec fn view(&self) -> Seq<MinterInfo> {
        self.minters@
    }
}

impl MinterRegistry {
    /// At most one record per issuing identity.
    pub open spec fn wf(&self) -> bool {
        minters_wf(self@)
    }

    /// An empty registry: the instrument starts with no issuers.
    pub fn new() -> (r: MinterRegistry)
        ensures
            r@ == Seq::<MinterInfo>::empty(),
            r.wf(),
    {
        MinterRegistry { minters: Vec::new() }
    }

    /// Looks the identity's record up by position.
    fn find(&self, a: Pubkey) -> (r: Option<usize>)
        ensures
            match r {
                Some(i) => i < self@.len() && self@[i as int].authority == a,
                None => !has_minter(self@, a),
            },
    {
        let mut i: usize = 0;
        while i < self.minters.len()
            invariant
                i <= self@.len(),
                forall|j: int| 0 <= j < i ==> self@[j].authority != a,
            decreases self@.len() - i,
        {
            if self.minters[i].authority == a {
                return Some(i);
            }
            i += 1;
        }
        None
    }

    /// The identity's record, if one exists.
    pub fn get(&self, a: Pubkey) -> (r: Option<MinterInfo>)
        requires
            self.wf(),
        ensures
            r == if has_minter(self@, a) {
                Some(minter_of(self@, a))
            } else {
                None::<MinterInfo>
            },
    {
        match self.find(a) {
            Some(i) => {
                proof {
                    lemma_minter_index_unique(self@, a, i as int);
                }
                Some(self.minters[i])
            },
            None => None,
        }
    }
}

/// Outcome of granting an issuer: master authority only; at most one record
/// per identity; the new record starts with nothing issued.
pub open spec fn add_minter_spec(
    cfg: ConfigView,
    minters: Seq<MinterInfo>,
    signer: Pubkey,
    minter: Pubkey,
    quota: u64,
) -> (Seq<MinterInfo>, Result<(), StablecoinError>) {
    if !authorized(cfg.master_authority, signer) {
        (minters, Err(StablecoinError::Unauthorized))
    } else if has_minter(minters, minter) {
        (minters, Err(StablecoinError::InvalidAccount))
    } else {
        (minters.push(MinterInfo { authority: minter, quota, minted: 0 }), Ok(()))
    }
}

/// Grants `minter` an issuance quota.  Master authority only; fails with
/// `InvalidAccount` when the identity already holds a record.
pub fn add_minter(
    config: &StablecoinConfig,
    registry: &mut MinterRegistry,
    signer: Pubkey,
    minter: Pubkey,
    quota: u64,
) -> (r: Result<(), StablecoinError>)
    requires
        old(registry).wf(),
    ensures
        final(registry).wf(),
        (final(registry)@, r) == add_minter_spec(config@, old(registry)@, signer, minter, quota),
{
    let gate = require_role(config.master_authority, signer);
    if let Err(e) = gate {
        return Err(e);
    }
    if let Some(_i) = registry.find(minter) {
        return Err(StablecoinError::InvalidAccount);
    }
    registry.minters.push(MinterInfo { authority: minter, quota, minted: 0 });
    proof {
        let s = old(registry)@;
        let s2 = registry@;
        assert forall|i: int, j: int|
            0 <= i < s2.len() && 0 <= j < s2.len() && i != j implies s2[i].authority
            != s2[j].authority by {
            if i < s.len() && j < s.len() {
                assert(s2[i] == s[i] && s2[j] == s[j]);
            }
        }
    }
    Ok(())
}

/// Outcome of re-pointing an issuer's quota: master authority only; the
/// audit counter is untouched.  The new quota is deliberately not required
/// to cover what is already issued: setting it lower simply blocks further
/// issuance.
pub open spec fn update_minter_quota_spec(
    cfg: ConfigView,
    minters: Seq<MinterInfo>,
    signer: Pubkey,
    minter: Pubkey,
    new_quota: u64,
) -> (Seq<MinterInfo>, Result<(), StablecoinError>) {
    if !authorized(cfg.master_authority, signer) {
        (minters, Err(StablecoinError::Unauthorized))
    } else if !has_minter(minters, minter) {
        (minters, Err(StablecoinError::InvalidAccount))
    } else {
        let i = minter_index(minters, minter);
        (minters.update(i, MinterInfo { quota: new_quota, ..minters[i] }), Ok(()))
    }
}

/// Sets the issuer's quota ceiling.  Master authority only; fails with
/// `InvalidAccount` when the identity holds no record.
pub fn update_minter_quota(
    config: &StablecoinConfig,
    registry: &mut MinterRegistry,
    signer: Pubkey,
    minter: Pubkey,
    new_quota: u64,
) -> (r: Result<(), StablecoinError>)
    requires
        old(registry).wf(),
    ensures
        final(registry).wf(),
        (final(registry)@, r) == update_minter_quota_spec(
            config@,
            old(registry)@,
            signer,
            minter,
            new_quota,
        ),
{
    let gate = require_role(config.master_authority, signer);
    if let Err(e) = gate {
        return Err(e);
    }
    match registry.find(minter) {
        None => Err(StablecoinError::InvalidAccount),
        Some(i) => {
            proof {
                lemma_minter_index_unique(old(registry)@, minter, i as int);
            }
            let m = registry.minters[i];
            registry.minters.set(i, MinterInfo { quota: new_quota, ..m });
            proof {
                lemma_update_keeps_wf(old(registry)@, i as int, registry@[i as int]);
            }
            Ok(())
        },
    }
}

/// Outcome of revoking an issuer: the quota is zeroed, the record and its
/// audit counter stay.
pub open spec fn remove_minter_spec(
    cfg: ConfigView,
    minters: Seq<MinterInfo>,
    signer: Pubkey,
    minter: Pubkey,
) -> (Seq<MinterInfo>, Result<(), StablecoinError>) {
    if !authorized(cfg.master_authority, signer) {
        (minters, Err(StablecoinError::Unauthorized))
    } else if !has_minter(minters, minter) {
        (minters, Err(StablecoinError::InvalidAccount))
    } else {
        let i = minter_index(minters, minter);
        (minters.update(i, MinterInfo { quota: 0, ..minters[i] }), Ok(()))
    }
}

/// Revokes an issuer by zeroing its quota.  Master authority only.
///
/// The record is kept, not deleted: cumulative-issuance history is
/// preserved for audit, and the identity can issue nothing more.
pub fn remove_minter(
    config: &StablecoinConfig,
    registry: &mut MinterRegistry,
    signer: Pubkey,
    minter: Pubkey,
) -> (r: Result<(), StablecoinError>)
    requires
        old(registry).wf(),
    ensures
        final(registry).wf(),
        (final(registry)@, r) == remove_minter_spec(config@, old(registry)@, signer, minter),
{
    let gate = require_role(config.master_authority, signer);
    if let Err(e) = gate {
        return Err(e);
    }
    match registry.find(minter) {
        None => Err(StablecoinError::InvalidAccount),
        Some(i) => {
            proof {
                lemma_minter_index_unique(old(registry)@, minter, i as int);
            }
            let m = registry.minters[i];
            registry.minters.set(i, MinterInfo { quota: 0, ..m });
            proof {
                lemma_update_keeps_wf(old(registry)@, i as int, registry@[i as int]);
            }
            Ok(())
        },
    }
}

/// Outcome of issuance: the issuer must hold a record, the instrument must
/// not be paused, and the issue must fit under the quota; then the counter
/// rises by the amount and the ledger is told to mint.
pub open spec fn mint_spec(
    cfg: ConfigView,
    minters: Seq<MinterInfo>,
    minter: Pubkey,
    token_account: Pubkey,
    amount: u64,
) -> (Seq<MinterInfo>, Result<LedgerOp, StablecoinError>) {
    if !has_minter(minters, minter) {
        (minters, Err(StablecoinError::Unauthorized))
    } else if cfg.paused {
        (minters, Err(StablecoinError::TokenPaused))
    } else {
        let i = minter_index(minters, minter);
        let m = minters[i];
        if m.minted + amount > m.quota {
            (minters, Err(StablecoinError::QuotaExceeded))
        } else {
            (
                minters.update(i, MinterInfo { minted: (m.minted + amount) as u64, ..m }),
                Ok(
                    LedgerOp::MintTo {
                        asset: cfg.mint,
                        destination: token_account,
                        authority: minter,
                        amount,
                    },
                ),
            )
        }
    }
}

/// Issues `amount` new units to `token_account`.
///
/// The invoking identity must hold a quota record (`Unauthorized`
/// otherwise); fails with `TokenPaused` while the instrument is paused and
/// with `QuotaExceeded` when `minted + amount > quota`.  On success the
/// issuer's cumulative counter rises by `amount` and the returned command
/// tells the ledger to mint; the host applies both in one atomic
/// transaction, so a failed ledger call also rolls the counter back.  On
/// any error the registry is unchanged.
pub fn mint(
    config: &StablecoinConfig,
    registry: &mut MinterRegistry,
    minter: Pubkey,
    token_account: Pubkey,
    amount: u64,
) -> (r: Result<LedgerOp, StablecoinError>)
    requires
        old(registry).wf(),
    ensures
        final(registry).wf(),
        (final(registry)@, r) == mint_spec(config@, old(registry)@, minter, token_account, amount),
{
    match registry.find(minter) {
        None => Err(StablecoinError::Unauthorized),
        Some(i) => {
            proof {
                lemma_minter_index_unique(old(registry)@, minter, i as int);
            }
            if config.paused {
                return Err(StablecoinError::TokenPaused);
            }
            let m = registry.minters[i];
            let total = match m.minted.checked_add(amount) {
                None => {
                    return Err(StablecoinError::QuotaExceeded);
                },
                Some(t) => t,
            };
            if total > m.quota {
                return Err(StablecoinError::QuotaExceeded);
            }
            registry.minters.set(i, MinterInfo { minted: total, ..m });
            proof {
                lemma_update_keeps_wf(old(registry)@, i as int, registry@[i as int]);
            }
            Ok(
                LedgerOp::MintTo {
                    asset: config.mint,
                    destination: token_account,
                    authority: minter,
                    amount,
                },
            )
        },
    }
}

/// Outcome of redemption: refused only while the instrument is paused.
///
/// Redemption does not touch any quota counter: the quota tracks cumulative
/// issuance, not net supply.
pub open spec fn burn_spec(
    cfg: ConfigView,
    token_account: Pubkey,
    burner: Pubkey,
    amount: u64,
) -> Result<LedgerOp, StablecoinError> {
    if cfg.paused {
        Err(StablecoinError::TokenPaused)
    } else {
        Ok(LedgerOp::Burn { asset: cfg.mint, source: token_account, authority: burner, amount })
    }
}

/// Redeems `amount` units out of `token_account`.
///
/// Fails with `TokenPaused` while the instrument is paused; otherwise
/// returns the ledger burn command.  Whether `burner` may burn from the
/// account is the ledger's own check.
pub fn burn(config: &StablecoinConfig, token_account: Pubkey, burner: Pubkey, amount: u64) -> (r:
    Result<LedgerOp, StablecoinError>)
    ensures
        r == burn_spec(config@, token_account, burner, amount),
{
    if config.paused {
        return Err(StablecoinError::TokenPaused);
    }
    Ok(LedgerOp::Burn { asset: config.mint, source: token_account, authority: burner, amount })
}

/// Replacing one record with one that keeps its authority preserves
/// well-formedness.
proof fn lemma_update_keeps_wf(s: Seq<MinterInfo>, i: int, m: MinterInfo)
    requires
        minters_wf(s),
        0 <= i < s.len(),
        m.authority == s[i].authority,
    ensures
        minters_wf(s.update(i, m)),
{
    let s2 = s.update(i, m);
    assert forall|p: int, q: int|
        0 <= p < s2.len() && 0 <= q < s2.len() && p != q implies s2[p].authority
        != s2[q].authority by {
        assert(s2[p].authority == s[p].authority);
        assert(s2[q].authority == s[q].authority);
    }
}

} // verus!
