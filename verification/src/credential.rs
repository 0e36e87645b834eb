//! Credential verification: find the unique directory user whose passcode
//! explains a submitted keyed hash of the issued nonce.
//!
//! The scan visits every user and compares each expected digest in
//! constant time.  Exactly one match authenticates that user; zero matches
//! and several matches are both plain authentication failures, so a
//! passcode collision never binds an ambiguous identity.

use vstd::prelude::*;

use crate::crypto::compare_digest;
use crate::crypto::hmac_of;
use crate::crypto::hmac_sha256;

verus! {

/// One entry of the user directory, as handed in by the directory
/// collaborator: identifier, display name, and the provisioned passcode,
/// used only as key material for the keyed hash.
pub struct User {
    pub id: u64,
    pub name: String,
    pub passcode: Vec<u8>,
}

/// Whether `u`'s passcode explains the submitted digest of the nonce.
pub open spec fn is_match(u: User, nonce: Seq<u8>, submitted: Seq<u8>) -> bool {
    hmac_of(u.passcode@, nonce) == submitted
}

/// How many users of the directory match the submitted digest.
pub open spec fn count_matches(users: Seq<User>, nonce: Seq<u8>, submitted: Seq<u8>) -> nat
    decreases users.len(),
{
    if users.len() == 0 {
        0
    } else {
        count_matches(users.drop_last(), nonce, submitted) + if is_match(
            users.last(),
            nonce,
            submitted,
        ) {
            1nat
        } else {
            0nat
        }
    }
}

proof fn lemma_match_implies_count_pos(users: Seq<User>, nonce: Seq<u8>, submitted: Seq<u8>, i: int)
    requires
        0 <= i < users.len(),
        is_match(users[i], nonce, submitted),
    ensures
        count_matches(users, nonce, submitted) >= 1,
    decreases users.len(),
{
    if i < users.len() - 1 {
        assert(users.drop_last()[i] == users[i]);
        lemma_match_implies_count_pos(users.drop_last(), nonce, submitted, i);
    }
}

proof fn lemma_two_matches_count_two(
    users: Seq<User>,
    nonce: Seq<u8>,
    submitted: Seq<u8>,
    i: int,
    j: int,
)
    requires
        0 <= i < j < users.len(),
        is_match(users[i], nonce, submitted),
        is_match(users[j], nonce, submitted),
    ensures
        count_matches(users, nonce, submitted) >= 2,
    decreases users.len(),
{
    assert(users.drop_last()[i] == users[i]);
    if j == users.len() - 1 {
        lemma_match_implies_count_pos(users.drop_last(), nonce, submitted, i);
    } else {
        assert(users.drop_last()[j] == users[j]);
        lemma_two_matches_count_two(users.drop_last(), nonce, submitted, i, j);
    }
}

/// A unique credential match binds a unique identity: when exactly one
/// user of the directory matches, any two matching indices are the same
/// index, so no ambiguous identity can ever be bound.
pub proof fn lemma_unique_match(
    users: Seq<User>,
    nonce: Seq<u8>,
    submitted: Seq<u8>,
    i: int,
    j: int,
)
    requires
        count_matches(users, nonce, submitted) == 1,
        0 <= i < users.len(),
        is_match(users[i], nonce, submitted),
        0 <= j < users.len(),
        is_match(users[j], nonce, submitted),
    ensures
        i == j,
{
    if i < j {
        lemma_two_matches_count_two(users, nonce, submitted, i, j);
    }
    if j < i {
        lemma_two_matches_count_two(users, nonce, submitted, j, i);
    }
}

/// Scan the whole directory and return the index of the matching user --
/// but only when that user is unique.  Zero matches and several matches
/// come back alike as `None`.
pub fn find_unique_match(users: &Vec<User>, nonce: &Vec<u8>, submitted: &Vec<u8>) -> (r: Option<
    usize,
>)
    ensures
        match r {
            Some(i) => count_matches(users@, nonce@, submitted@) == 1 && i < users@.len()
                && is_match(users@[i as int], nonce@, submitted@),
            None => count_matches(users@, nonce@, submitted@) != 1,
        },
{
    let mut count: usize = 0;
    let mut found: Option<usize> = None;
    let mut j: usize = 0;
    while j < users.len()
        invariant
            j <= users@.len(),
            count <= j,
            count == count_matches(users@.take(j as int), nonce@, submitted@),
            match found {
                Some(k) => k < j && is_match(users@[k as int], nonce@, submitted@) && count >= 1,
                None => count == 0,
            },
        decreases users@.len() - j,
    {
        let expected = hmac_sha256(&users[j].passcode, nonce);
        let matched = compare_digest(&expected, submitted);
        proof {
            let s = users@.take(j as int + 1);
            assert(s.drop_last() =~= users@.take(j as int));
            assert(s.last() == users@[j as int]);
        }
        if matched {
            count = count + 1;
            if found.is_none() {
                found = Some(j);
            }
        }
        j = j + 1;
    }
    proof {
        assert(users@.take(j as int) =~= users@);
    }
    if count == 1 {
        found
    } else {
        None
    }
}

} // verus!
