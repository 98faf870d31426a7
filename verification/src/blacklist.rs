//! The compliance registry: presence-based restriction records.
//!
//! Membership on the compliance list is the mere *existence* of a record
//! for the address.  The transfer hook asks only "does a record exist?",
//! never reading record content; the reason and timestamp inside a record
//! are audit metadata for administrative tooling.  Clearing an address
//! therefore destroys its record outright — there is no soft unflag.

use vstd::prelude::*;
use vstd::string::StrSliceExecFns;

use crate::config::{authorized, require_role, ConfigView, StablecoinConfig};
use crate::error::StablecoinError;
use crate::pubkey::Pubkey;

verus! {

/// Longest accepted restriction reason, in characters.
pub const MAX_REASON_LEN: usize = 100;

/// One restriction record.  Its existence is the compliance signal; the
/// fields are audit metadata only.
pub struct BlacklistEntry {
    /// The restricted address.
    pub user: Pubkey,
    /// Free-text reason (at most 100 characters).
    pub reason: String,
    /// When the record was created, as the host clock said.
    pub timestamp: i64,
}

/// Mathematical image of a restriction record.
pub struct BlacklistEntryView {
    pub user: Pubkey,
    pub reason: Seq<char>,
    pub timestamp: i64,
}

impl View for BlacklistEntry {
    type V = BlacklistEntryView;

    open spec fn view(&self) -> BlacklistEntryView {
        BlacklistEntryView { user: self.user, reason: self.reason@, timestamp: self.timestamp }
    }
}

/// At most one record per restricted address.
pub open spec fn blacklist_wf(s: Seq<BlacklistEntryView>) -> bool {
    forall|i: int, j: int|
        0 <= i < s.len() && 0 <= j < s.len() && i != j ==> s[i].user != s[j].user
}

/// Whether a record exists for the address: the sole compliance signal.
pub open spec fn is_blacklisted(s: Seq<BlacklistEntryView>, user: Pubkey) -> bool {
    exists|i: int| 0 <= i < s.len() && s[i].user == user
}

/// The position of the address's record.
pub open spec fn entry_index(s: Seq<BlacklistEntryView>, user: Pubkey) -> int {
    choose|i: int| 0 <= i < s.len() && s[i].user == user
}

/// The address's record.
pub open spec fn entry_of(s: Seq<BlacklistEntryView>, user: Pubkey) -> BlacklistEntryView {
    s[entry_index(s, user)]
}

/// In a well-formed registry, any position holding the address's record is
/// the position `entry_index` names.
pub proof fn lemma_entry_index_unique(s: Seq<BlacklistEntryView>, user: Pubkey, i: int)
    requires
        blacklist_wf(s),
        0 <= i < s.len(),
        s[i].user == user,
    ensures
        entry_index(s, user) == i,
        is_blacklisted(s, user),
        entry_of(s, user) == s[i],
{
    assert(is_blacklisted(s, user));
    let j = entry_index(s, user);
    assert(0 <= j < s.len() && s[j].user == user);
    if i != j {
        assert(s[i].user != s[j].user);
    }
}

/// The compliance registry of one instrument.
pub struct BlacklistRegistry {
    entries: Vec<BlacklistEntry>,
}

impl View for BlacklistRegistry {
    type V = Seq<BlacklistEntryView>;

    closed spec fn view(&self) -> Seq<BlacklistEntryView> {
        self.entries@.map_values(|e: BlacklistEntry| e@)
    }
}

impl BlacklistRegistry {
    /// At most one record per restricted address.
    pub open spec fn wf(&self) -> bool {
        blacklist_wf(self@)
    }

    /// An empty registry: the instrument starts with no restrictions.
    pub fn new() -> (r: BlacklistRegistry)
        ensures
            r@ == Seq::<BlacklistEntryView>::empty(),
            r.wf(),
    {
        let r = BlacklistRegistry { entries: Vec::new() };
        proof {
            assert(r@ =~= Seq::<BlacklistEntryView>::empty());
        }
        r
    }

    /// Looks the address's record up by position.
    fn find(&self, user: Pubkey) -> (r: Option<usize>)
        ensures
            match r {
                Some(i) => i < self@.len() && self@[i as int].user == user,
                None => !is_blacklisted(self@, user),
            },
    {
        let mut i: usize = 0;
        while i < self.entries.len()
            invariant
                i <= self@.len(),
                self@.len() == self.entries@.len(),
                forall|j: int| 0 <= j < self@.len() ==> self@[j] == self.entries@[j]@,
                forall|j: int| 0 <= j < i ==> self@[j].user != user,
            decreases self@.len() - i,
        {
            if self.entries[i].user == user {
                return Some(i);
            }
            i += 1;
        }
        None
    }

    /// The existence probe the transfer hook runs on its hot path: answers
    /// whether the address is restricted without reading record content.
    pub fn exists_entry(&self, user: Pubkey) -> (r: bool)
        ensures
            r == is_blacklisted(self@, user),
    {
        match self.find(user) {
            Some(_i) => true,
            None => false,
        }
    }

    /// Reads the address's record, for administrative tooling; the hook
    /// never calls this.
    pub fn get_entry(&self, user: Pubkey) -> (r: Option<&BlacklistEntry>)
        requires
            self.wf(),
        ensures
            match r {
                Some(e) => is_blacklisted(self@, user) && e@ == entry_of(self@, user),
                None => !is_blacklisted(self@, user),
            },
    {
        match self.find(user) {
            Some(i) => {
                proof {
                    lemma_entry_index_unique(self@, user, i as int);
                }
                Some(&self.entries[i])
            },
            None => None,
        }
    }
}

/// Outcome of restricting an address: blacklister role only, only while the
/// instrument's compliance-hook flag is on, the reason bounded, and
/// existence exclusive — a second record for the same address is refused.
pub open spec fn add_to_blacklist_spec(
    cfg: ConfigView,
    entries: Seq<BlacklistEntryView>,
    signer: Pubkey,
    user: Pubkey,
    reason: Seq<char>,
    timestamp: i64,
) -> (Seq<BlacklistEntryView>, Result<(), StablecoinError>) {
    if !authorized(cfg.blacklister, signer) {
        (entries, Err(StablecoinError::Unauthorized))
    } else if !cfg.enable_transfer_hook {
        (entries, Err(StablecoinError::ComplianceNotEnabled))
    } else if reason.len() > MAX_REASON_LEN {
        (entries, Err(StablecoinError::InvalidAccount))
    } else if is_blacklisted(entries, user) {
        (entries, Err(StablecoinError::AlreadyBlacklisted))
    } else {
        (entries.push(BlacklistEntryView { user, reason, timestamp }), Ok(()))
    }
}

/// Restricts an address.  Blacklister role only.
///
/// Fails with `ComplianceNotEnabled` while the instrument's compliance-hook
/// flag is off, with `InvalidAccount` when the reason exceeds 100
/// characters, and with `AlreadyBlacklisted` when a record already exists.
/// `timestamp` is the host clock reading stored as audit metadata.
pub fn add_to_blacklist(
    config: &StablecoinConfig,
    registry: &mut BlacklistRegistry,
    signer: Pubkey,
    user: Pubkey,
    reason: String,
    timestamp: i64,
) -> (r: Result<(), StablecoinError>)
    requires
        old(registry).wf(),
    ensures
        final(registry).wf(),
        (final(registry)@, r) == add_to_blacklist_spec(
            config@,
            old(registry)@,
            signer,
            user,
            reason@,
            timestamp,
        ),
{
    let gate = require_role(config.blacklister, signer);
    if let Err(e) = gate {
        return Err(e);
    }
    if !config.enable_transfer_hook {
        return Err(StablecoinError::ComplianceNotEnabled);
    }
    if reason.unicode_len() > MAX_REASON_LEN {
        return Err(StablecoinError::InvalidAccount);
    }
    if let Some(_i) = registry.find(user) {
        return Err(StablecoinError::AlreadyBlacklisted);
    }
    let ghost pre = registry@;
    registry.entries.push(BlacklistEntry { user, reason, timestamp });
    proof {
        assert(registry@ =~= pre.push(BlacklistEntryView { user, reason: reason@, timestamp }));
        let s2 = registry@;
        assert forall|i: int, j: int|
            0 <= i < s2.len() && 0 <= j < s2.len() && i != j implies s2[i].user != s2[j].user by {
            if i < pre.len() && j < pre.len() {
                assert(s2[i] == pre[i] && s2[j] == pre[j]);
            }
        }
    }
    Ok(())
}

/// Outcome of clearing an address: blacklister role only, only while the
/// compliance-hook flag is on; the record is destroyed entirely, and
/// clearing an address that holds no record is refused.
pub open spec fn remove_from_blacklist_spec(
    cfg: ConfigView,
    entries: Seq<BlacklistEntryView>,
    signer: Pubkey,
    user: Pubkey,
) -> (Seq<BlacklistEntryView>, Result<(), StablecoinError>) {
    if !authorized(cfg.blacklister, signer) {
        (entries, Err(StablecoinError::Unauthorized))
    } else if !cfg.enable_transfer_hook {
        (entries, Err(StablecoinError::ComplianceNotEnabled))
    } else if !is_blacklisted(entries, user) {
        (entries, Err(StablecoinError::NotBlacklisted))
    } else {
        (entries.remove(entry_index(entries, user)), Ok(()))
    }
}

/// Clears an address by destroying its record — the only way compliance
/// status is ever cleared.  Blacklister role only.
///
/// Fails with `ComplianceNotEnabled` while the compliance-hook flag is off
/// and with `NotBlacklisted` when no record exists.  The record's escrowed
/// storage cost returns to the blacklister on the host's side.
pub fn remove_from_blacklist(
    config: &StablecoinConfig,
    registry: &mut BlacklistRegistry,
    signer: Pubkey,
    user: Pubkey,
) -> (r: Result<(), StablecoinError>)
    requires
        old(registry).wf(),
    ensures
        final(registry).wf(),
        (final(registry)@, r) == remove_from_blacklist_spec(
            config@,
            old(registry)@,
            signer,
            user,
        ),
{
    let gate = require_role(config.blacklister, signer);
    if let Err(e) = gate {
        return Err(e);
    }
    if !config.enable_transfer_hook {
        return Err(StablecoinError::ComplianceNotEnabled);
    }
    match registry.find(user) {
        None => Err(StablecoinError::NotBlacklisted),
        Some(i) => {
            proof {
                lemma_entry_index_unique(old(registry)@, user, i as int);
            }
            let ghost pre = registry@;
            let _removed = registry.entries.remove(i);
            proof {
                assert(registry@ =~= pre.remove(i as int));
                lemma_remove_keeps_wf(pre, i as int);
            }
            Ok(())
        },
    }
}

/// Removing a record preserves well-formedness.
proof fn lemma_remove_keeps_wf(s: Seq<BlacklistEntryView>, i: int)
    requires
        blacklist_wf(s),
        0 <= i < s.len(),
    ensures
        blacklist_wf(s.remove(i)),
{
    let s2 = s.remove(i);
    assert forall|p: int, q: int|
        0 <= p < s2.len() && 0 <= q < s2.len() && p != q implies s2[p].user != s2[q].user by {
        let p0 = if p < i {
            p
        } else {
            p + 1
        };
        let q0 = if q < i {
            q
        } else {
            q + 1
        };
        assert(s2[p] == s[p0]);
        assert(s2[q] == s[q0]);
    }
}

} // verus!
