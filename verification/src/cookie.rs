//! Session cookie codec: a tamper-evident wire encoding of protocol state.
//!
//! The wire form is the encoded payload followed by a keyed digest of that
//! payload under the server secret.  Decoding recomputes the digest and
//! compares it in constant time; malformed, truncated and mis-signed
//! cookies all come back as `None`, indistinguishable from one another.

use vstd::prelude::*;

use vstd::bytes::lemma_auto_spec_u64_to_from_le_bytes;
use vstd::bytes::spec_u64_from_le_bytes;
use vstd::bytes::spec_u64_to_le_bytes;
use vstd::bytes::u64_from_le_bytes;
use vstd::bytes::u64_to_le_bytes;

use crate::crypto::compare_digest;
use crate::crypto::hmac_of;
use crate::crypto::hmac_sha256;
use crate::hex::hex_decode;
use crate::hex::hex_encode;
use crate::hex::lemma_hex_round_trip;
use crate::hex::spec_hex_decode;
use crate::hex::spec_hex_encode;
use crate::nonce::NONCE_LEN;

verus! {

/// Protocol state threaded through one challenge-response cycle: the
/// issued nonce, and the authenticated identity once a login succeeded.
pub struct SessionCookie {
    pub nonce: Vec<u8>,
    pub user_id: Option<u64>,
}

/// Mathematical model of a session cookie.
pub ghost struct SessionCookieView {
    pub nonce: Seq<u8>,
    pub user_id: Option<u64>,
}

impl View for SessionCookie {
    type V = SessionCookieView;

    open spec fn view(&self) -> SessionCookieView {
        SessionCookieView { nonce: self.nonce@, user_id: self.user_id }
    }
}

impl SessionCookie {
    /// A cookie is well formed when its nonce has the challenge length.
    pub open spec fn wf(&self) -> bool {
        self@.nonce.len() == NONCE_LEN
    }

    /// Fresh state for a newly issued challenge: the nonce is bound, and
    /// nobody is authenticated yet.
    pub fn new(nonce: Vec<u8>) -> (r: Self)
        requires
            nonce@.len() == NONCE_LEN,
        ensures
            r@ == (SessionCookieView { nonce: nonce@, user_id: None }),
            r.wf(),
    {
        SessionCookie { nonce, user_id: None }
    }
}

/// Byte encoding of the cookie state, before signing: the nonce, one flag
/// byte telling whether an identity is bound, and, if one is, the identity
/// in eight little-endian bytes.  An absent identity is encoded by the
/// flag alone, so it stays distinguishable from every real identifier.
pub open spec fn spec_encode_payload(c: SessionCookieView) -> Seq<u8> {
    match c.user_id {
        None => c.nonce + seq![0u8],
        Some(id) => c.nonce + seq![1u8] + spec_u64_to_le_bytes(id),
    }
}

/// Signed wire form: the payload followed by its keyed digest under `secret`.
pub open spec fn spec_serialize(c: SessionCookieView, secret: Seq<u8>) -> Seq<u8> {
    spec_encode_payload(c) + hmac_of(secret, spec_encode_payload(c))
}

/// What decoding accepts: the flag byte fixes the payload length, and the
/// rest of the wire string must equal the payload's keyed digest under
/// `secret`.  Everything else — short input, unknown flag, wrong tag — is
/// rejected as `None`.
pub open spec fn spec_deserialize(t: Seq<u8>, secret: Seq<u8>) -> Option<SessionCookieView> {
    if NONCE_LEN < t.len() && t[NONCE_LEN as int] == 0 && t.skip(NONCE_LEN as int + 1)
        == hmac_of(secret, t.take(NONCE_LEN as int + 1)) {
        Some(SessionCookieView { nonce: t.take(NONCE_LEN as int), user_id: None })
    } else if NONCE_LEN + 9 <= t.len() && t[NONCE_LEN as int] == 1 && t.skip(
        NONCE_LEN as int + 9,
    ) == hmac_of(secret, t.take(NONCE_LEN as int + 9)) {
        Some(
            SessionCookieView {
                nonce: t.take(NONCE_LEN as int),
                user_id: Some(
                    spec_u64_from_le_bytes(t.subrange(NONCE_LEN as int + 1, NONCE_LEN as int + 9)),
                ),
            },
        )
    } else {
        None
    }
}

/// Encode the cookie and append its authentication tag.  Deterministic in
/// the cookie state and the secret.
pub fn serialize(cookie: &SessionCookie, secret: &Vec<u8>) -> (r: Vec<u8>)
    requires
        cookie.wf(),
    ensures
        r@ == spec_serialize(cookie@, secret@),
{
    let mut payload: Vec<u8> = Vec::new();
    let mut i: usize = 0;
    while i < cookie.nonce.len()
        invariant
            i <= cookie.nonce@.len(),
            payload@ == cookie.nonce@.take(i as int),
        decreases cookie.nonce@.len() - i,
    {
        proof {
            assert(cookie.nonce@.take(i as int + 1) =~= cookie.nonce@.take(i as int).push(
                cookie.nonce@[i as int],
            ));
        }
        payload.push(cookie.nonce[i]);
        i = i + 1;
    }
    proof {
        assert(payload@ =~= cookie.nonce@);
    }
    match cookie.user_id {
        None => {
            payload.push(0u8);
        },
        Some(id) => {
            payload.push(1u8);
            let mut idb = u64_to_le_bytes(id);
            payload.append(&mut idb);
        },
    }
    proof {
        assert(payload@ =~= spec_encode_payload(cookie@));
    }
    let mut tag = hmac_sha256(secret, &payload);
    let mut out = payload;
    out.append(&mut tag);
    proof {
        assert(out@ =~= spec_serialize(cookie@, secret@));
    }
    out
}

/// Recompute the tag over the embedded payload and compare it, in constant
/// time, against the embedded tag.  `None` on malformed encoding, short
/// input, or tag mismatch alike: callers cannot tell the failures apart.
pub fn deserialize(text: &Vec<u8>, secret: &Vec<u8>) -> (r: Option<SessionCookie>)
    ensures
        match r {
            Some(c) => spec_deserialize(text@, secret@) == Some(c@) && c.wf(),
            None => spec_deserialize(text@, secret@) is None,
        },
{
    let n = text.len();
    if n <= NONCE_LEN {
        return None;
    }
    let flag = text[NONCE_LEN];
    if flag > 1 {
        return None;
    }
    if flag == 1 && n < NONCE_LEN + 9 {
        return None;
    }
    let plen: usize = if flag == 0 {
        NONCE_LEN + 1
    } else {
        NONCE_LEN + 9
    };
    let mut payload: Vec<u8> = Vec::new();
    let mut i: usize = 0;
    while i < plen
        invariant
            i <= plen,
            plen <= text@.len(),
            payload@ == text@.take(i as int),
        decreases plen - i,
    {
        proof {
            assert(text@.take(i as int + 1) =~= text@.take(i as int).push(text@[i as int]));
        }
        payload.push(text[i]);
        i = i + 1;
    }
    let mut tag: Vec<u8> = Vec::new();
    while i < n
        invariant
            plen <= i <= n,
            n == text@.len(),
            tag@ == text@.subrange(plen as int, i as int),
        decreases n - i,
    {
        proof {
            assert(text@.subrange(plen as int, i as int + 1) =~= text@.subrange(
                plen as int,
                i as int,
            ).push(text@[i as int]));
        }
        tag.push(text[i]);
        i = i + 1;
    }
    proof {
        assert(payload@ =~= text@.take(plen as int));
        assert(tag@ =~= text@.skip(plen as int));
    }
    let expected = hmac_sha256(secret, &payload);
    if !compare_digest(&tag, &expected) {
        return None;
    }
    let mut nonce: Vec<u8> = Vec::new();
    let mut k: usize = 0;
    while k < NONCE_LEN
        invariant
            k <= NONCE_LEN,
            NONCE_LEN < payload@.len(),
            nonce@ == payload@.take(k as int),
        decreases NONCE_LEN - k,
    {
        proof {
            assert(payload@.take(k as int + 1) =~= payload@.take(k as int).push(
                payload@[k as int],
            ));
        }
        nonce.push(payload[k]);
        k = k + 1;
    }
    proof {
        assert(nonce@ =~= text@.take(NONCE_LEN as int));
    }
    let user_id: Option<u64>;
    if flag == 0 {
        user_id = None;
    } else {
        let mut idb: Vec<u8> = Vec::new();
        let mut k2: usize = NONCE_LEN + 1;
        while k2 < NONCE_LEN + 9
            invariant
                NONCE_LEN + 1 <= k2 <= NONCE_LEN + 9,
                NONCE_LEN + 9 <= payload@.len(),
                idb@ == payload@.subrange(NONCE_LEN as int + 1, k2 as int),
            decreases NONCE_LEN + 9 - k2,
        {
            proof {
                assert(payload@.subrange(NONCE_LEN as int + 1, k2 as int + 1) =~= payload@.subrange(
                    NONCE_LEN as int + 1,
                    k2 as int,
                ).push(payload@[k2 as int]));
            }
            idb.push(payload[k2]);
            k2 = k2 + 1;
        }
        proof {
            assert(idb@ =~= text@.subrange(NONCE_LEN as int + 1, NONCE_LEN as int + 9));
        }
        let id = u64_from_le_bytes(idb.as_slice());
        user_id = Some(id);
    }
    let c = SessionCookie { nonce, user_id };
    proof {
        assert(spec_deserialize(text@, secret@) == Some(c@));
    }
    Some(c)
}

/// Header text of a signed cookie: the signed bytes in lower-case hex.
pub open spec fn spec_serialize_text(c: SessionCookieView, secret: Seq<u8>) -> Seq<u8> {
    spec_hex_encode(spec_serialize(c, secret))
}

/// What decoding header text accepts: hex framing first, then the signed
/// byte form; a failure of either is `None`.
pub open spec fn spec_deserialize_text(text: Seq<u8>, secret: Seq<u8>) -> Option<
    SessionCookieView,
> {
    match spec_hex_decode(text) {
        None => None,
        Some(w) => spec_deserialize(w, secret),
    }
}

/// Encode, sign and frame the cookie as header-safe text.
pub fn serialize_text(cookie: &SessionCookie, secret: &Vec<u8>) -> (r: Vec<u8>)
    requires
        cookie.wf(),
    ensures
        r@ == spec_serialize_text(cookie@, secret@),
{
    let wire = serialize(cookie, secret);
    hex_encode(&wire)
}

/// Unframe and validate cookie header text; `None` on bad framing exactly
/// as on any other invalid cookie.
pub fn deserialize_text(text: &Vec<u8>, secret: &Vec<u8>) -> (r: Option<SessionCookie>)
    ensures
        match r {
            Some(c) => spec_deserialize_text(text@, secret@) == Some(c@) && c.wf(),
            None => spec_deserialize_text(text@, secret@) is None,
        },
{
    let wire = match hex_decode(text) {
        None => {
            return None;
        },
        Some(w) => w,
    };
    deserialize(&wire, secret)
}

/// Round trip through the text framing: signed header text decodes, under
/// the same secret, to exactly the state that was signed.
pub proof fn lemma_text_round_trip(c: SessionCookieView, secret: Seq<u8>)
    requires
        c.nonce.len() == NONCE_LEN,
    ensures
        spec_deserialize_text(spec_serialize_text(c, secret), secret) == Some(c),
{
    lemma_hex_round_trip(spec_serialize(c, secret));
    lemma_round_trip(c, secret);
}

/// Round trip: a cookie signed under a secret decodes, under the same
/// secret, to exactly the state that was signed.
pub proof fn lemma_round_trip(c: SessionCookieView, secret: Seq<u8>)
    requires
        c.nonce.len() == NONCE_LEN,
    ensures
        spec_deserialize(spec_serialize(c, secret), secret) == Some(c),
{
    let p = spec_encode_payload(c);
    let m = hmac_of(secret, p);
    let t = spec_serialize(c, secret);
    match c.user_id {
        None => {
            assert(p.len() == NONCE_LEN + 1);
            assert(t[NONCE_LEN as int] == p[NONCE_LEN as int]);
            assert(p[NONCE_LEN as int] == 0);
            assert(t.take(NONCE_LEN as int + 1) =~= p);
            assert(t.skip(NONCE_LEN as int + 1) =~= m);
            assert(t.take(NONCE_LEN as int) =~= c.nonce);
        },
        Some(id) => {
            lemma_auto_spec_u64_to_from_le_bytes();
            assert(p.len() == NONCE_LEN + 9);
            assert(t[NONCE_LEN as int] == p[NONCE_LEN as int]);
            assert(p[NONCE_LEN as int] == 1);
            assert(t.take(NONCE_LEN as int + 9) =~= p);
            assert(t.skip(NONCE_LEN as int + 9) =~= m);
            assert(t.take(NONCE_LEN as int) =~= c.nonce);
            assert(t.subrange(NONCE_LEN as int + 1, NONCE_LEN as int + 9) =~= spec_u64_to_le_bytes(
                id,
            ));
        },
    }
}

/// Key-mismatch rejection: a cookie signed under one secret does not
/// decode under another, as long as the two secrets do not give the same
/// digest of that payload (for distinct secrets a digest collision is the
/// sole escape, and nothing can be said of one here).
pub proof fn lemma_wrong_secret_rejected(c: SessionCookieView, s1: Seq<u8>, s2: Seq<u8>)
    requires
        c.nonce.len() == NONCE_LEN,
        hmac_of(s1, spec_encode_payload(c)) != hmac_of(s2, spec_encode_payload(c)),
    ensures
        spec_deserialize(spec_serialize(c, s1), s2) is None,
{
    let p = spec_encode_payload(c);
    let t = spec_serialize(c, s1);
    match c.user_id {
        None => {
            assert(p.len() == NONCE_LEN + 1);
            assert(t[NONCE_LEN as int] == p[NONCE_LEN as int]);
            assert(t.take(NONCE_LEN as int + 1) =~= p);
            assert(t.skip(NONCE_LEN as int + 1) =~= hmac_of(s1, p));
        },
        Some(id) => {
            lemma_auto_spec_u64_to_from_le_bytes();
            assert(p.len() == NONCE_LEN + 9);
            assert(t[NONCE_LEN as int] == p[NONCE_LEN as int]);
            assert(t.take(NONCE_LEN as int + 9) =~= p);
            assert(t.skip(NONCE_LEN as int + 9) =~= hmac_of(s1, p));
        },
    }
}

/// Tag tamper rejection: flipping any byte of the tag region of a signed
/// cookie makes decoding fail.  `tag` stands for the tampered tag: same
/// length as the true digest, different in at least one place.
pub proof fn lemma_tag_flip_rejected(c: SessionCookieView, secret: Seq<u8>, tag: Seq<u8>, i: int)
    requires
        c.nonce.len() == NONCE_LEN,
        tag.len() == hmac_of(secret, spec_encode_payload(c)).len(),
        0 <= i < tag.len(),
        tag[i] != hmac_of(secret, spec_encode_payload(c))[i],
    ensures
        spec_deserialize(spec_encode_payload(c) + tag, secret) is None,
{
    let p = spec_encode_payload(c);
    let t = p + tag;
    assert(tag != hmac_of(secret, p));
    match c.user_id {
        None => {
            assert(p.len() == NONCE_LEN + 1);
            assert(t[NONCE_LEN as int] == p[NONCE_LEN as int]);
            assert(t.take(NONCE_LEN as int + 1) =~= p);
            assert(t.skip(NONCE_LEN as int + 1) =~= tag);
        },
        Some(id) => {
            lemma_auto_spec_u64_to_from_le_bytes();
            assert(p.len() == NONCE_LEN + 9);
            assert(t[NONCE_LEN as int] == p[NONCE_LEN as int]);
            assert(t.take(NONCE_LEN as int + 9) =~= p);
            assert(t.skip(NONCE_LEN as int + 9) =~= tag);
        },
    }
}

/// Tamper evidence, the other direction: any wire string that decodes
/// under a secret is, byte for byte, the signing of the decoded state
/// under that same secret.
pub proof fn lemma_accepted_implies_signed(t: Seq<u8>, secret: Seq<u8>, c: SessionCookieView)
    requires
        spec_deserialize(t, secret) == Some(c),
    ensures
        t == spec_serialize(c, secret),
        c.nonce.len() == NONCE_LEN,
{
    if NONCE_LEN < t.len() && t[NONCE_LEN as int] == 0 && t.skip(NONCE_LEN as int + 1) == hmac_of(
        secret,
        t.take(NONCE_LEN as int + 1),
    ) {
        let p = t.take(NONCE_LEN as int + 1);
        assert(spec_encode_payload(c) =~= p);
        assert(t =~= spec_serialize(c, secret));
    } else {
        lemma_auto_spec_u64_to_from_le_bytes();
        let p = t.take(NONCE_LEN as int + 9);
        assert(spec_encode_payload(c) =~= p);
        assert(t =~= spec_serialize(c, secret));
    }
}

} // verus!
