//! Connection identities: 128-bit tokens minted when a connection is accepted.

use vstd::prelude::*;

verus! {

/// The bits of an identity that say how it was made.
pub const LAYOUT_MASK: u128 = 0x0000_0000_0000_f000_c000_0000_0000_0000;

/// The value of those bits in a minted identity: a random token in the
/// standard layout.
pub const LAYOUT_RANDOM: u128 = 0x0000_0000_0000_4000_8000_0000_0000_0000;

/// Whether `identity` has the layout of a minted identity.
pub open spec fn is_minted(identity: u128) -> bool {
    identity & LAYOUT_MASK == LAYOUT_RANDOM
}

/// Calls `uuid::Uuid::new_v4` and hands the token back as the integer that
/// `Uuid::as_u128` gives. The other 122 bits come from the operating system's
/// random source, so nothing is claimed of them; the call fails only where
/// that source does. Believed, not proved: the version and variant bits are
/// those of a random token.
#[verifier::external_body]
fn random_token() -> (token: u128)
    ensures
        is_minted(token),
{
    uuid::Uuid::new_v4().as_u128()
}

/// Mints the identity of a newly accepted connection.
pub fn mint() -> (identity: u128)
    ensures
        is_minted(identity),
{
    random_token()
}

} // verus!
