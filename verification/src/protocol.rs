//! Login protocol orchestration: issuing a challenge and verifying a
//! login submission against it.
//!
//! A challenge binds a fresh nonce into a signed cookie; a login is
//! accepted only when the submitted cookie verifies and exactly one
//! directory user's passcode explains the submitted hash.  Every failure
//! — missing cookie, tampered cookie, zero or several matches — collapses
//! into the one observable outcome `Unauthorized`, so nothing leaks about
//! why an attempt failed.

use vstd::prelude::*;

use crate::cookie::deserialize_text;
use crate::cookie::serialize_text;
use crate::cookie::spec_deserialize_text;
use crate::cookie::spec_serialize_text;
use crate::cookie::SessionCookie;
use crate::cookie::SessionCookieView;
use crate::credential::count_matches;
use crate::credential::find_unique_match;
use crate::credential::is_match;
use crate::credential::User;
use crate::data::LoginData;
use crate::nonce::generate_nonce;
use crate::nonce::NONCE_LEN;

verus! {

/// Process-wide state: the signing secret, held for the whole lifetime of
/// the service and passed explicitly into the codec.
pub struct ServerState {
    pub signing_key: Vec<u8>,
}

impl ServerState {
    pub fn new(signing_key: Vec<u8>) -> (r: Self)
        ensures
            r.signing_key@ == signing_key@,
    {
        ServerState { signing_key }
    }

    pub fn get_signing_key(&self) -> (r: &Vec<u8>)
        ensures
            r@ == self.signing_key@,
    {
        &self.signing_key
    }
}

/// What a login submission comes to: the authenticated identity with a
/// freshly signed cookie, or a bare refusal that says nothing more.
pub enum LoginOutcome {
    Success { user_id: u64, name: String, cookie: Vec<u8> },
    Unauthorized,
}

/// Issue a challenge: draw a fresh nonce, bind it into a signed cookie
/// with nobody authenticated, and hand back the cookie together with the
/// raw nonce so the legitimate client can compute its keyed hash.
///
/// `None` only when the entropy source fails; the request must then be
/// aborted rather than served with predictable randomness.
pub fn issue_challenge(state: &ServerState) -> (r: Option<(Vec<u8>, Vec<u8>)>)
    ensures
        r matches Some(p) ==> p.1@.len() == NONCE_LEN && p.0@ == spec_serialize_text(
            (SessionCookieView { nonce: p.1@, user_id: None }),
            state.signing_key@,
        ),
{
    let nonce = match generate_nonce() {
        None => {
            return None;
        },
        Some(v) => v,
    };
    let cookie = SessionCookie::new(nonce);
    let text = serialize_text(&cookie, state.get_signing_key());
    let SessionCookie { nonce, user_id: _ } = cookie;
    Some((text, nonce))
}

/// Verify a login submission: validate the signed cookie, scan the user
/// directory for the unique passcode that explains the submitted hash,
/// and on success bind that identity into a freshly signed cookie.
///
/// The directory snapshot `users` must not change for the duration of one
/// call; the caller takes it atomically from the directory collaborator.
pub fn verify_login(
    cookie_text: Option<&Vec<u8>>,
    data: &LoginData,
    users: &Vec<User>,
    state: &ServerState,
) -> (r: LoginOutcome)
    ensures
        (match cookie_text {
            None => r is Unauthorized,
            Some(t) => match spec_deserialize_text(t@, state.signing_key@) {
                None => r is Unauthorized,
                Some(sc) => {
                    if count_matches(users@, sc.nonce, data.passcode_hmac@) == 1 {
                        match r {
                            LoginOutcome::Success { user_id, name, cookie } => exists|i: int|
                                0 <= i < users@.len() && #[trigger] is_match(
                                    users@[i],
                                    sc.nonce,
                                    data.passcode_hmac@,
                                ) && user_id == users@[i].id && name@ == users@[i].name@
                                && cookie@ == spec_serialize_text(
                                    (SessionCookieView {
                                        nonce: sc.nonce,
                                        user_id: Some(users@[i].id),
                                    }),
                                    state.signing_key@,
                                ),
                            LoginOutcome::Unauthorized => false,
                        }
                    } else {
                        r is Unauthorized
                    }
                },
            },
        }),
{
    let t = match cookie_text {
        None => {
            return LoginOutcome::Unauthorized;
        },
        Some(t) => t,
    };
    let c = match deserialize_text(t, state.get_signing_key()) {
        None => {
            return LoginOutcome::Unauthorized;
        },
        Some(c) => c,
    };
    match find_unique_match(users, &c.nonce, &data.passcode_hmac) {
        None => LoginOutcome::Unauthorized,
        Some(i) => {
            let user_id = users[i].id;
            let name = users[i].name.clone();
            let authed = SessionCookie { nonce: c.nonce, user_id: Some(user_id) };
            let cookie = serialize_text(&authed, state.get_signing_key());
            LoginOutcome::Success { user_id, name, cookie }
        },
    }
}

} // verus!
