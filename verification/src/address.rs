//! Deterministic record addressing.
//!
//! Every persisted record lives at an address derived from a namespace tag
//! and the record's key tuple; the namespace-plus-key *is* the lookup path,
//! so no directory or index structure exists.  The host runtime realizes an
//! address as a collision-resistant hash; the library models an address as
//! the tag and key tuple themselves, which makes the property the design
//! relies on — distinct keys never collide — a theorem rather than a
//! cryptographic assumption.

use vstd::prelude::*;

use crate::pubkey::Pubkey;

verus! {

/// A derived storage address: one namespace per record kind, keyed as the
/// data model prescribes.
#[derive(Clone, Copy, Debug, PartialEq, Eq, Structural)]
pub enum RecordAddress {
    /// The instrument configuration, one per asset.
    Config { mint: Pubkey },
    /// An issuer quota record, one per (instrument, issuer).
    Minter { mint: Pubkey, authority: Pubkey },
    /// A compliance record, zero or one per (instrument, address).
    Blacklist { mint: Pubkey, user: Pubkey },
    /// The hook configuration, one per instrument.
    TransferHook { mint: Pubkey },
}

/// Derives the address of an instrument's configuration record.
pub fn config_address(mint: Pubkey) -> (r: RecordAddress)
    ensures
        r == (RecordAddress::Config { mint }),
{
    RecordAddress::Config { mint }
}

/// Derives the address of an issuer's quota record.
pub fn minter_address(mint: Pubkey, authority: Pubkey) -> (r: RecordAddress)
    ensures
        r == (RecordAddress::Minter { mint, authority }),
{
    RecordAddress::Minter { mint, authority }
}

/// Derives the address of an address's compliance record — the address the
/// transfer hook probes for existence.
pub fn blacklist_address(mint: Pubkey, user: Pubkey) -> (r: RecordAddress)
    ensures
        r == (RecordAddress::Blacklist { mint, user }),
{
    RecordAddress::Blacklist { mint, user }
}

/// Derives the address of an instrument's hook configuration record.
pub fn hook_address(mint: Pubkey) -> (r: RecordAddress)
    ensures
        r == (RecordAddress::TransferHook { mint }),
{
    RecordAddress::TransferHook { mint }
}

/// Derivation is injective: two compliance addresses coincide exactly when
/// both the instrument and the restricted address coincide, and addresses
/// of different record kinds never collide.
pub proof fn lemma_blacklist_address_injective(m1: Pubkey, u1: Pubkey, m2: Pubkey, u2: Pubkey)
    ensures
        ((RecordAddress::Blacklist { mint: m1, user: u1 }) == (RecordAddress::Blacklist {
            mint: m2,
            user: u2,
        })) <==> (m1 == m2 && u1 == u2),
        (RecordAddress::Blacklist { mint: m1, user: u1 }) != (RecordAddress::Config { mint: m2 }),
        (RecordAddress::Blacklist { mint: m1, user: u1 }) != (RecordAddress::Minter {
            mint: m2,
            authority: u2,
        }),
        (RecordAddress::Blacklist { mint: m1, user: u1 }) != (RecordAddress::TransferHook {
            mint: m2,
        }),
{
}

} // verus!
