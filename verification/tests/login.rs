//! End-to-end protocol scenarios: challenge issuance, login verification,
//! and nonce generation.

use hmac::Mac;
use nonce_auth::cookie::deserialize_text;
use nonce_auth::credential::{find_unique_match, User};
use nonce_auth::data::{BuyerLoginData, LoginData};
use nonce_auth::nonce::generate_nonce;
use nonce_auth::protocol::{issue_challenge, verify_login, LoginOutcome, ServerState};

fn keyed_digest(key: &[u8], msg: &[u8]) -> Vec<u8> {
    let mut mac = <hmac::Hmac<sha2::Sha256> as Mac>::new_from_slice(key)
        .expect("HMAC-SHA256 accepts keys of any length");
    mac.update(msg);
    mac.finalize().into_bytes().to_vec()
}

fn directory() -> Vec<User> {
    vec![
        User {
            id: 3,
            name: "ada".to_string(),
            passcode: b"passcode-of-user-3".to_vec(),
        },
        User {
            id: 7,
            name: "grace".to_string(),
            passcode: b"passcode-of-user-7".to_vec(),
        },
    ]
}

#[test]
fn unique_match_authenticates() {
    let state = ServerState::new(b"server-secret".to_vec());
    let (cookie_text, nonce) = issue_challenge(&state).expect("entropy source available");
    let users = directory();
    let data = LoginData {
        passcode_hmac: keyed_digest(b"passcode-of-user-7", &nonce),
    };
    match verify_login(Some(&cookie_text), &data, &users, &state) {
        LoginOutcome::Success {
            user_id,
            name,
            cookie,
        } => {
            assert_eq!(user_id, 7);
            assert_eq!(name, "grace");
            let bound = deserialize_text(&cookie, state.get_signing_key())
                .expect("reissued cookie must verify");
            assert_eq!(bound.nonce, nonce);
            assert_eq!(bound.user_id, Some(7));
        }
        LoginOutcome::Unauthorized => panic!("expected a successful login"),
    }
}

#[test]
fn shared_passcode_is_unauthorized() {
    let state = ServerState::new(b"server-secret".to_vec());
    let (cookie_text, nonce) = issue_challenge(&state).expect("entropy source available");
    let mut users = directory();
    users.push(User {
        id: 11,
        name: "margaret".to_string(),
        passcode: b"passcode-of-user-7".to_vec(),
    });
    let data = LoginData {
        passcode_hmac: keyed_digest(b"passcode-of-user-7", &nonce),
    };
    let r = verify_login(Some(&cookie_text), &data, &users, &state);
    assert!(matches!(r, LoginOutcome::Unauthorized));
}

#[test]
fn cookie_from_rotated_secret_is_unauthorized() {
    let old_state = ServerState::new(b"old-server-secret".to_vec());
    let state = ServerState::new(b"new-server-secret".to_vec());
    let (cookie_text, nonce) = issue_challenge(&old_state).expect("entropy source available");
    let users = directory();
    let data = LoginData {
        passcode_hmac: keyed_digest(b"passcode-of-user-7", &nonce),
    };
    let r = verify_login(Some(&cookie_text), &data, &users, &state);
    assert!(matches!(r, LoginOutcome::Unauthorized));
}

#[test]
fn missing_cookie_is_unauthorized() {
    let state = ServerState::new(b"server-secret".to_vec());
    let users = directory();
    let data = LoginData {
        passcode_hmac: keyed_digest(b"passcode-of-user-7", b"whatever nonce"),
    };
    let r = verify_login(None, &data, &users, &state);
    assert!(matches!(r, LoginOutcome::Unauthorized));
}

#[test]
fn wrong_passcode_is_unauthorized() {
    let state = ServerState::new(b"server-secret".to_vec());
    let (cookie_text, nonce) = issue_challenge(&state).expect("entropy source available");
    let users = directory();
    let data = LoginData {
        passcode_hmac: keyed_digest(b"not-anyones-passcode", &nonce),
    };
    let r = verify_login(Some(&cookie_text), &data, &users, &state);
    assert!(matches!(r, LoginOutcome::Unauthorized));
}

#[test]
fn tampered_cookie_text_is_unauthorized() {
    let state = ServerState::new(b"server-secret".to_vec());
    let (cookie_text, nonce) = issue_challenge(&state).expect("entropy source available");
    let users = directory();
    let data = LoginData {
        passcode_hmac: keyed_digest(b"passcode-of-user-7", &nonce),
    };
    let untampered = verify_login(Some(&cookie_text), &data, &users, &state);
    assert!(matches!(untampered, LoginOutcome::Success { .. }));
    for i in 0..cookie_text.len() {
        let mut tampered = cookie_text.clone();
        tampered[i] ^= 0x01;
        let r = verify_login(Some(&tampered), &data, &users, &state);
        assert!(matches!(r, LoginOutcome::Unauthorized));
    }
}

#[test]
fn find_unique_match_policy() {
    let nonce: Vec<u8> = (0u8..32u8).collect();
    let mut users = directory();
    let submitted = keyed_digest(b"passcode-of-user-7", &nonce);
    assert_eq!(find_unique_match(&users, &nonce, &submitted), Some(1));
    assert_eq!(
        find_unique_match(&users, &nonce, &keyed_digest(b"unknown", &nonce)),
        None
    );
    users.push(User {
        id: 11,
        name: "margaret".to_string(),
        passcode: b"passcode-of-user-7".to_vec(),
    });
    assert_eq!(find_unique_match(&users, &nonce, &submitted), None);
}

#[test]
fn issued_cookie_carries_the_nonce() {
    let state = ServerState::new(b"server-secret".to_vec());
    let (cookie_text, nonce) = issue_challenge(&state).expect("entropy source available");
    assert_eq!(nonce.len(), 32);
    let c = deserialize_text(&cookie_text, state.get_signing_key())
        .expect("issued cookie must verify under the issuing secret");
    assert_eq!(c.nonce, nonce);
    assert_eq!(c.user_id, None);
}

#[test]
fn nonces_are_fresh_across_many_draws() {
    let mut nonces: Vec<Vec<u8>> = Vec::with_capacity(10_000);
    for _ in 0..10_000 {
        let n = generate_nonce().expect("entropy source available");
        assert_eq!(n.len(), 32);
        nonces.push(n);
    }
    nonces.sort();
    let before = nonces.len();
    nonces.dedup();
    assert_eq!(nonces.len(), before, "duplicate nonce drawn");
}

#[test]
fn empty_login_form_by_default() {
    let form = BuyerLoginData::default();
    assert!(form.hmac.is_empty());
    assert!(form.passcode.is_empty());
}
