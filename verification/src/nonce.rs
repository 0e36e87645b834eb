//! One-time challenge nonces.

use vstd::prelude::*;

use rand::RngCore;

verus! {

/// Number of bytes in a challenge nonce.
pub const NONCE_LEN: usize = 32;

/// Relies on `rand::rngs::OsRng::try_fill_bytes`: fills the buffer from
/// the operating system's cryptographically secure entropy source, or
/// reports failure without producing any value.
#[verifier::external_body]
fn os_random_bytes(len: usize) -> (r: Option<Vec<u8>>)
    ensures
        r matches Some(v) ==> v@.len() == len,
{
    let mut buf = vec![0u8; len];
    match rand::rngs::OsRng.try_fill_bytes(&mut buf) {
        Ok(()) => Some(buf),
        Err(_) => None,
    }
}

/// Draw a fresh unpredictable challenge nonce.
///
/// Returns `None` when the entropy source is unavailable: the caller must
/// then abort the request rather than fall back to weaker randomness.
pub fn generate_nonce() -> (r: Option<Vec<u8>>)
    ensures
        r matches Some(v) ==> v@.len() == NONCE_LEN,
{
    os_random_bytes(NONCE_LEN)
}

} // verus!
