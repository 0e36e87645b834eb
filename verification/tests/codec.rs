//! Cookie codec behaviour on concrete values: round trips, tampering,
//! wrong keys, malformed input.

use hmac::Mac;
use nonce_auth::cookie::{deserialize, serialize, SessionCookie};
use nonce_auth::crypto::compare_digest;
use nonce_auth::hex::{hex_decode, hex_encode};

fn keyed_digest(key: &[u8], msg: &[u8]) -> Vec<u8> {
    let mut mac = <hmac::Hmac<sha2::Sha256> as Mac>::new_from_slice(key)
        .expect("HMAC-SHA256 accepts keys of any length");
    mac.update(msg);
    mac.finalize().into_bytes().to_vec()
}

fn sample_nonce() -> Vec<u8> {
    (0u8..32u8).collect()
}

#[test]
fn round_trip_unauthenticated() {
    let secret = b"cookie-signing-secret".to_vec();
    let cookie = SessionCookie::new(sample_nonce());
    let wire = serialize(&cookie, &secret);
    let back = deserialize(&wire, &secret).expect("freshly signed cookie must verify");
    assert_eq!(back.nonce, sample_nonce());
    assert_eq!(back.user_id, None);
}

#[test]
fn round_trip_authenticated() {
    let secret = b"cookie-signing-secret".to_vec();
    let cookie = SessionCookie {
        nonce: sample_nonce(),
        user_id: Some(0xdead_beef_cafe_f00d),
    };
    let wire = serialize(&cookie, &secret);
    let back = deserialize(&wire, &secret).expect("freshly signed cookie must verify");
    assert_eq!(back.nonce, sample_nonce());
    assert_eq!(back.user_id, Some(0xdead_beef_cafe_f00d));

    let largest = SessionCookie {
        nonce: sample_nonce(),
        user_id: Some(u64::MAX),
    };
    let wire = serialize(&largest, &secret);
    let back = deserialize(&wire, &secret).expect("freshly signed cookie must verify");
    assert_eq!(back.user_id, Some(u64::MAX));
}

#[test]
fn wire_tag_is_hmac_sha256_of_payload() {
    let secret = b"cookie-signing-secret".to_vec();
    let cookie = SessionCookie::new(sample_nonce());
    let wire = serialize(&cookie, &secret);
    // payload: 32-byte nonce plus one flag byte; tag: 32 bytes after it
    assert_eq!(wire.len(), 33 + 32);
    let mut expected_payload = sample_nonce();
    expected_payload.push(0);
    assert_eq!(&wire[..33], &expected_payload[..]);
    assert_eq!(&wire[33..], &keyed_digest(&secret, &expected_payload)[..]);
}

#[test]
fn every_tag_byte_flip_is_rejected() {
    let secret = b"cookie-signing-secret".to_vec();
    let cookie = SessionCookie {
        nonce: sample_nonce(),
        user_id: Some(7),
    };
    let wire = serialize(&cookie, &secret);
    let payload_len = wire.len() - 32;
    for i in payload_len..wire.len() {
        for flip in [0x01u8, 0x80u8] {
            let mut tampered = wire.clone();
            tampered[i] ^= flip;
            assert!(deserialize(&tampered, &secret).is_none());
        }
    }
}

#[test]
fn payload_byte_flip_is_rejected() {
    let secret = b"cookie-signing-secret".to_vec();
    let cookie = SessionCookie::new(sample_nonce());
    let wire = serialize(&cookie, &secret);
    for i in 0..33 {
        let mut tampered = wire.clone();
        tampered[i] ^= 0x40;
        assert!(deserialize(&tampered, &secret).is_none());
    }
}

#[test]
fn wrong_secret_is_rejected() {
    let old_secret = b"rotated-out-secret".to_vec();
    let new_secret = b"current-secret".to_vec();
    let cookie = SessionCookie::new(sample_nonce());
    let wire = serialize(&cookie, &old_secret);
    assert!(deserialize(&wire, &new_secret).is_none());
    assert!(deserialize(&wire, &old_secret).is_some());
}

#[test]
fn truncated_and_malformed_input_is_rejected() {
    let secret = b"cookie-signing-secret".to_vec();
    let cookie = SessionCookie::new(sample_nonce());
    let wire = serialize(&cookie, &secret);
    for cut in [0usize, 1, 31, 32, 33, 40, wire.len() - 1] {
        let truncated = wire[..cut].to_vec();
        assert!(deserialize(&truncated, &secret).is_none());
    }
    let mut extended = wire.clone();
    extended.push(0);
    assert!(deserialize(&extended, &secret).is_none());
    let mut bad_flag = wire.clone();
    bad_flag[32] = 9;
    assert!(deserialize(&bad_flag, &secret).is_none());
}

#[test]
fn compare_digest_equal_and_unequal() {
    let a = vec![1u8, 2, 3, 4];
    assert!(compare_digest(&a, &vec![1u8, 2, 3, 4]));
    assert!(!compare_digest(&a, &vec![0u8, 2, 3, 4]));
    assert!(!compare_digest(&a, &vec![1u8, 2, 3, 5]));
    assert!(compare_digest(&Vec::new(), &Vec::new()));
}

#[test]
fn hex_encodes_lower_case_pairs() {
    assert_eq!(
        hex_encode(&vec![0x00, 0x0f, 0xa5, 0xff]),
        b"000fa5ff".to_vec()
    );
    assert_eq!(hex_encode(&Vec::new()), Vec::<u8>::new());
}

#[test]
fn hex_decode_inverts_encode() {
    let bytes: Vec<u8> = (0u8..=255u8).collect();
    assert_eq!(hex_decode(&hex_encode(&bytes)), Some(bytes));
}

#[test]
fn hex_decode_rejects_bad_text() {
    assert_eq!(hex_decode(&b"abc".to_vec()), None);
    assert_eq!(hex_decode(&b"0g".to_vec()), None);
    assert_eq!(hex_decode(&b"AB".to_vec()), None);
    assert_eq!(hex_decode(&b"".to_vec()), Some(Vec::new()));
}

#[test]
fn compare_digest_rejects_unequal_lengths() {
    let a = vec![1u8, 2, 3, 4];
    assert!(!compare_digest(&a, &vec![1u8, 2, 3]));
    assert!(!compare_digest(&a, &vec![1u8, 2, 3, 4, 5]));
    assert!(!compare_digest(&a, &Vec::new()));
}
