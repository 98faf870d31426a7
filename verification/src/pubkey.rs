//! Identities.
//!
//! Every party in the system — the master authority, the delegated roles, an
//! issuer, a restricted address, a token account — is named by a 256-bit
//! identity.  The host runtime verifies that a transaction was signed by the
//! identity it claims; the library receives identities as plain values and
//! compares them only for equality (no hierarchy, no delegation chains).

use vstd::prelude::*;

verus! {

/// A 256-bit identity, held as four 64-bit words.
///
/// Identities are compared by value equality only, and `==` in executable
/// code agrees with equality in specifications.
#[derive(Clone, Copy, Debug, PartialEq, Eq, Structural)]
pub struct Pubkey {
    pub w0: u64,
    pub w1: u64,
    pub w2: u64,
    pub w3: u64,
}

impl Pubkey {
    /// Builds an identity from its four 64-bit words.
    pub fn new(w0: u64, w1: u64, w2: u64, w3: u64) -> (r: Pubkey)
        ensures
            r == (Pubkey { w0, w1, w2, w3 }),
    {
        Pubkey { w0, w1, w2, w3 }
    }
}

} // verus!
