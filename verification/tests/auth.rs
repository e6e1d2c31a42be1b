use payphone::auth::{
    append_revoked_id, generate_signing_key, load_revoked_ids, parse_token_id_hex, token_id_hex, AuthError,
    FileRevocationStore, MemoryRevocationStore, RevocationStore, SigningKey, SubscriptionClaims, SubscriptionPlan,
    SubscriptionToken, SubscriptionVerifier, VerificationKeyRing, VerifyingKey, CLIENT_ID_SIZE, CLOCK_SKEW_SECONDS,
    TOKEN_ID_SIZE, TOKEN_SIZE,
};

fn test_claims() -> SubscriptionClaims {
    SubscriptionClaims {
        key_id: 1,
        token_id: [10u8; TOKEN_ID_SIZE],
        client_id: [20u8; CLIENT_ID_SIZE],
        issued_at: 1_000,
        not_before: 1_000,
        expires_at: 2_000,
        plan: SubscriptionPlan::Pro,
        device_limit: 5,
        max_mbps: 500,
    }
}

fn ring(key: VerifyingKey) -> VerificationKeyRing {
    let mut keys = VerificationKeyRing::new();
    keys.insert(1, key);
    keys
}

#[test]
fn lib_token_roundtrip() {
    let signing_key = generate_signing_key().unwrap();
    let original = SubscriptionToken::sign(test_claims(), &signing_key);
    let encoded = original.encode();
    assert_eq!(encoded.len(), TOKEN_SIZE);
    let decoded = SubscriptionToken::decode(encoded).unwrap();
    assert_eq!(decoded.claims, original.claims);
    assert_eq!(decoded.signature, original.signature);
}

#[test]
fn valid_token_passes() {
    let signing_key = generate_signing_key().unwrap();
    let verifying_key = signing_key.verifying_key();
    let token = SubscriptionToken::sign(test_claims(), &signing_key);
    let mut keys = VerificationKeyRing::new();
    keys.insert(1, verifying_key);
    let verifier = SubscriptionVerifier::new(keys, MemoryRevocationStore::new());
    let claims = verifier.verify_at(&token, 1_500).unwrap();
    assert_eq!(claims.plan, SubscriptionPlan::Pro);
}

#[test]
fn expired_token_fails() {
    let signing_key = generate_signing_key().unwrap();
    let mut keys = VerificationKeyRing::new();
    keys.insert(1, signing_key.verifying_key());
    let token = SubscriptionToken::sign(test_claims(), &signing_key);
    let verifier = SubscriptionVerifier::new(keys, MemoryRevocationStore::new());
    let result = verifier.verify_at(&token, 2_001);
    assert!(matches!(result, Err(AuthError::Expired)));
}

#[test]
fn modified_token_signature_fails() {
    let signing_key = generate_signing_key().unwrap();
    let mut token = SubscriptionToken::sign(test_claims(), &signing_key);
    token.claims.expires_at = 99_999_999;
    let mut keys = VerificationKeyRing::new();
    keys.insert(1, signing_key.verifying_key());
    let verifier = SubscriptionVerifier::new(keys, MemoryRevocationStore::new());
    let result = verifier.verify_at(&token, 1_500);
    assert!(matches!(result, Err(AuthError::InvalidSignature)));
}

#[test]
fn revoked_token_fails() {
    let signing_key = generate_signing_key().unwrap();
    let token = SubscriptionToken::sign(test_claims(), &signing_key);
    let mut keys = VerificationKeyRing::new();
    keys.insert(1, signing_key.verifying_key());
    let mut revocations = MemoryRevocationStore::new();
    revocations.revoke(token.claims.token_id);
    let verifier = SubscriptionVerifier::new(keys, revocations);
    let result = verifier.verify_at(&token, 1_500);
    assert!(matches!(result, Err(AuthError::Revoked)));
}

#[test]
fn wrong_signing_key_fails() {
    let real_key = generate_signing_key().unwrap();
    let wrong_key = generate_signing_key().unwrap();
    let token = SubscriptionToken::sign(test_claims(), &real_key);
    let mut keys = VerificationKeyRing::new();
    keys.insert(1, wrong_key.verifying_key());
    let verifier = SubscriptionVerifier::new(keys, MemoryRevocationStore::new());
    let result = verifier.verify_at(&token, 1_500);
    assert!(matches!(result, Err(AuthError::InvalidSignature)));
}

#[test]
fn ed25519_keys_match_the_known_vector() {
    let secret: [u8; 32] = [
        0x9d, 0x61, 0xb1, 0x9d, 0xef, 0xfd, 0x5a, 0x60, 0xba, 0x84, 0x4a, 0xf4, 0x92, 0xec, 0x2c, 0xc4, 0x44, 0x49,
        0xc5, 0x69, 0x7b, 0x32, 0x69, 0x19, 0x70, 0x3b, 0xac, 0x03, 0x1c, 0xae, 0x7f, 0x60,
    ];
    let public: [u8; 32] = [
        0xd7, 0x5a, 0x98, 0x01, 0x82, 0xb1, 0x0a, 0xb7, 0xd5, 0x4b, 0xfe, 0xd3, 0xc9, 0x64, 0x07, 0x3a, 0x0e, 0xe1,
        0x72, 0xf3, 0xda, 0xa6, 0x23, 0x25, 0xaf, 0x02, 0x1a, 0x68, 0xf7, 0x07, 0x51, 0x1a,
    ];
    let key = SigningKey::from_bytes(&secret);
    assert_eq!(key.to_bytes(), secret);
    assert_eq!(key.verifying_key().to_bytes(), public);
    assert_eq!(VerifyingKey::from_bytes(&public).map(|k| k.to_bytes()), Some(public));
    let mut off_curve = [0u8; 32];
    off_curve[0] = 2;
    assert!(VerifyingKey::from_bytes(&off_curve).is_none());
}

#[test]
fn unknown_key_id_is_named() {
    let signing_key = generate_signing_key().unwrap();
    let mut claims = test_claims();
    claims.key_id = 9;
    let token = SubscriptionToken::sign(claims, &signing_key);
    let verifier = SubscriptionVerifier::new(ring(signing_key.verifying_key()), MemoryRevocationStore::new());
    assert_eq!(verifier.verify_at(&token, 1_500), Err(AuthError::UnknownKeyId(9)));
}

#[test]
fn times_are_judged_with_the_clock_skew() {
    let signing_key = generate_signing_key().unwrap();
    let verifier = SubscriptionVerifier::new(ring(signing_key.verifying_key()), MemoryRevocationStore::new());
    let token = SubscriptionToken::sign(test_claims(), &signing_key);
    assert!(verifier.verify_at(&token, 1_000 - CLOCK_SKEW_SECONDS).is_ok());

    let mut claims = test_claims();
    claims.issued_at = 1_000;
    claims.not_before = 1_500;
    let later = SubscriptionToken::sign(claims, &signing_key);
    assert_eq!(verifier.verify_at(&later, 1_100), Err(AuthError::NotYetValid));

    assert_eq!(verifier.verify_at(&token, 1_000 - CLOCK_SKEW_SECONDS - 1), Err(AuthError::IssuedInFuture));

    let mut claims = test_claims();
    claims.not_before = 2_000;
    claims.expires_at = 1_500;
    let turned = SubscriptionToken::sign(claims, &signing_key);
    assert_eq!(verifier.verify_at(&turned, 1_200), Err(AuthError::InvalidTimeRange));
}

#[test]
fn token_faults_are_told_apart() {
    let signing_key = generate_signing_key().unwrap();
    let wire = SubscriptionToken::sign(test_claims(), &signing_key).encode();
    assert_eq!(SubscriptionToken::decode(wire.slice(0..TOKEN_SIZE - 1)), Err(AuthError::InvalidTokenLength));

    let mut magic = wire.to_vec();
    magic[0] = b'X';
    assert_eq!(SubscriptionToken::decode(magic.into()), Err(AuthError::InvalidMagic));

    let mut version = wire.to_vec();
    version[4] = 9;
    assert_eq!(SubscriptionToken::decode(version.into()), Err(AuthError::UnsupportedTokenVersion(9)));

    let mut plan = wire.to_vec();
    plan[65] = 200;
    assert_eq!(SubscriptionToken::decode(plan.into()), Err(AuthError::UnknownPlan(200)));
}

#[test]
fn token_payload_layout_is_exact() {
    let payload = test_claims().encode_payload();
    assert_eq!(&payload[..4], b"PAYT");
    assert_eq!(payload[4], 1);
    assert_eq!(&payload[5..9], &[0, 0, 0, 1]);
    assert_eq!(&payload[9..25], &[10u8; 16]);
    assert_eq!(&payload[25..41], &[20u8; 16]);
    assert_eq!(&payload[41..49], &1_000u64.to_be_bytes());
    assert_eq!(&payload[57..65], &2_000u64.to_be_bytes());
    assert_eq!(payload[65], SubscriptionPlan::Pro.to_u8());
    assert_eq!(payload[66], 5);
    assert_eq!(&payload[67..71], &500u32.to_be_bytes());
}

#[test]
fn token_ids_read_back_from_hex() {
    let id: [u8; 16] = [0, 1, 2, 3, 4, 5, 6, 7, 8, 9, 10, 0xab, 0xcd, 0xef, 0xfe, 0xff];
    let hex = token_id_hex(&id);
    assert_eq!(hex, "000102030405060708090aabcdeffeff");
    assert_eq!(parse_token_id_hex(&hex), Some(id));
    assert_eq!(parse_token_id_hex("zz"), None);
}

#[test]
fn revocation_files_grow_by_one_line() {
    let first = [1u8; 16];
    let second = [2u8; 16];
    let text = append_revoked_id("", first).unwrap();
    let text = append_revoked_id(&text, second).unwrap();
    assert_eq!(append_revoked_id(&text, first), None);
    let store = load_revoked_ids(&format!("# a comment\n\n{}", text));
    assert!(store.is_revoked(&first));
    assert!(store.is_revoked(&second));
    assert!(!store.is_revoked(&[3u8; 16]));
}

#[test]
fn revocation_file_is_read_again_when_it_changes() {
    let id = [4u8; 16];
    let mut store = FileRevocationStore::open("revoked.txt");
    assert_eq!(store.path(), "revoked.txt");
    assert!(!store.is_revoked(&id));
    assert!(store.is_stale(Some(7)));
    store.refresh(Some(7), Some(&token_id_hex(&id)));
    assert!(store.is_revoked(&id));
    assert!(!store.is_stale(Some(7)));
}
