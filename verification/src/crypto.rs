//! Keyed digests and constant-time comparison.
//!
//! The keyed hash is used twice in the protocol: with the server secret as
//! key to authenticate cookie payloads, and with a user's passcode as key
//! to prove passcode possession without transmitting it.

use vstd::prelude::*;

use hmac::Mac;

verus! {

/// Number of bytes in a keyed digest (HMAC-SHA256 output).
pub const TAG_LEN: usize = 32;

/// The keyed digest of `msg` under `key`: HMAC-SHA256, left abstract.
/// The digest depends on the key and the message alone.
pub uninterp spec fn hmac_of(key: Seq<u8>, msg: Seq<u8>) -> Seq<u8>;

/// Relies on `hmac::Hmac<sha2::Sha256>` (RustCrypto): HMAC-SHA256 is a
/// pure function of key and message and always yields a 32-byte tag;
/// `new_from_slice` accepts keys of any length, deriving long keys by
/// hashing, so it never fails.
#[verifier::external_body]
pub(crate) fn hmac_sha256(key: &Vec<u8>, msg: &Vec<u8>) -> (r: Vec<u8>)
    ensures
        r@ == hmac_of(key@, msg@),
        r@.len() == TAG_LEN,
{
    let mut mac = <hmac::Hmac<sha2::Sha256> as Mac>::new_from_slice(key.as_slice())
        .expect("HMAC-SHA256 accepts keys of any length");
    mac.update(msg.as_slice());
    mac.finalize().into_bytes().to_vec()
}

/// Constant-time equality of two byte strings.
///
/// Unequal lengths are rejected up front, without touching the contents.
/// For equal lengths the loop always runs over every byte, folding the
/// differences into an accumulator with branch-free bit operations, so the
/// cost does not depend on the position of the first differing byte.
pub fn compare_digest(a: &Vec<u8>, b: &Vec<u8>) -> (r: bool)
    ensures
        r <==> a@ == b@,
{
    if a.len() != b.len() {
        return false;
    }
    let mut acc: u8 = 0;
    let mut i: usize = 0;
    while i < a.len()
        invariant
            i <= a@.len(),
            a@.len() == b@.len(),
            (acc == 0) <==> (forall|j: int| 0 <= j < i ==> a@[j] == b@[j]),
        decreases a@.len() - i,
    {
        let x: u8 = a[i];
        let y: u8 = b[i];
        let next: u8 = acc | (x ^ y);
        proof {
            assert((next == 0) <==> (acc == 0 && x == y)) by (bit_vector)
                requires
                    next == acc | (x ^ y),
            ;
            assert((acc == 0 && x == y) <==> (forall|j: int| 0 <= j < i + 1 ==> a@[j] == b@[j]));
        }
        acc = next;
        i = i + 1;
    }
    if acc == 0 {
        proof {
            assert(a@ =~= b@);
        }
        true
    } else {
        proof {
            assert(a@ != b@) by {
                if a@ == b@ {
                    assert(forall|j: int| 0 <= j < i ==> a@[j] == b@[j]);
                }
            }
        }
        false
    }
}

} // verus!
