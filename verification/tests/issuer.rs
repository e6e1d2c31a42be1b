use payphone::auth::{SigningKey, SubscriptionPlan, SubscriptionToken, VerifyingKey};
use payphone::issuer::{
    expiry, id_to_revoke, init_keys, issue_token, issue_with, load_signing_key, needs_keys, order_complaint, parse_plan, plan_limits,
    read_order, reality_files, reality_init, IssueError, Order, KEY_ID,
};
use payphone::server::front::{load_key_ring, KeyFileError};
use payphone::transport::reality::keys::{keypair_from, parse_32_bytes, parse_short_id, public_from_private};

fn words(line: &str) -> Vec<String> {
    line.split_whitespace().map(String::from).collect()
}

#[test]
fn orders_are_read() {
    assert!(matches!(read_order(&words("")), Ok(Order::Usage)));
    assert!(matches!(read_order(&words("help")), Ok(Order::Usage)));
    assert!(matches!(read_order(&words("init")), Ok(Order::Init)));
    assert!(matches!(read_order(&words("reality-init")), Ok(Order::RealityInit)));
    assert!(matches!(read_order(&words("issue 30")), Ok(Order::IssueUsage)));
    assert!(matches!(read_order(&words("setup")), Ok(Order::SetupUsage)));
    assert!(matches!(read_order(&words("revoke")), Ok(Order::RevokeUsage)));
    assert!(matches!(
        read_order(&words("issue 30 PRO")),
        Ok(Order::Issue { days: 30, plan: SubscriptionPlan::Pro })
    ));
    assert!(matches!(
        read_order(&words("setup 1 basic")),
        Ok(Order::Setup { days: 1, plan: SubscriptionPlan::Basic })
    ));
    assert!(matches!(read_order(&words("revoke a.token")), Ok(Order::Revoke(what)) if what == "a.token"));
    assert!(matches!(read_order(&words("issue x pro")), Err(IssueError::BadDays)));
    assert!(matches!(read_order(&words("issue 0 pro")), Err(IssueError::NoDays)));
    assert!(matches!(read_order(&words("issue 9 gold")), Err(IssueError::UnknownPlan)));
    assert_eq!(
        order_complaint(&IssueError::UnknownPlan, &words("issue 9 Gold")),
        "unknown subscription plan: Gold"
    );
    assert_eq!(order_complaint(&IssueError::NoDays, &words("issue 0 pro")), "days must be greater than zero");
    assert_eq!(parse_plan("Unlimited"), Ok(SubscriptionPlan::Unlimited));
    assert_eq!(IssueError::NoDays.message(), "days must be greater than zero");
}

#[test]
fn keys_are_never_overwritten() {
    assert_eq!(init_keys(true, true), Err(IssueError::PrivateKeyExists));
    assert_eq!(init_keys(false, true), Err(IssueError::PublicKeyExists));
    let (private, public) = init_keys(false, false).unwrap();
    assert_eq!(SigningKey::from_bytes(&private).verifying_key(), VerifyingKey::from_bytes(&public).unwrap());
    assert!(needs_keys(true, false));
    assert!(!needs_keys(true, true));
}

#[test]
fn plans_have_limits() {
    assert_eq!(plan_limits(SubscriptionPlan::Basic), (1, 100));
    assert_eq!(plan_limits(SubscriptionPlan::Pro), (5, 500));
    assert_eq!(plan_limits(SubscriptionPlan::Unlimited), (255, 0));
}

#[test]
fn lifetimes_are_checked() {
    assert_eq!(expiry(1_000, 2), Ok(173_800));
    assert_eq!(expiry(0, u64::MAX), Err(IssueError::LifetimeOverflow));
    assert_eq!(expiry(u64::MAX, 1), Err(IssueError::ExpiryOverflow));
}

#[test]
fn issued_tokens_pass() {
    let (private, public) = init_keys(false, false).unwrap();
    assert!(matches!(load_signing_key(&private[..31]), Err(IssueError::KeyLength)));
    assert!(matches!(issue_token(&[1], 1_000, 1, SubscriptionPlan::Pro), Err(IssueError::KeyLength)));
    let token = issue_token(&private, 1_000, 2, SubscriptionPlan::Pro).unwrap();
    assert_eq!((token.claims.key_id, token.claims.expires_at), (KEY_ID, 173_800));
    assert_eq!((token.claims.issued_at, token.claims.not_before), (1_000, 1_000));
    let ring = load_key_ring(&public).unwrap();
    assert!(token.verify_signature(ring.get(KEY_ID).unwrap()).is_ok());
    let other = issue_token(&private, 1_000, 2, SubscriptionPlan::Pro).unwrap();
    assert_ne!(other.claims.token_id, token.claims.token_id);
    assert!(matches!(load_key_ring(&public[1..]), Err(KeyFileError::Length)));
    let mut bad = [0u8; 32];
    bad[0] = 2;
    assert!(matches!(load_key_ring(&bad), Err(KeyFileError::NotAKey)));
}

#[test]
fn a_token_or_its_id_is_revoked() {
    let key = SigningKey::from_bytes(&[9; 32]);
    let token = issue_with(&key, 1_000, 1, SubscriptionPlan::Basic, [0xab; 16], [2; 16]).unwrap();
    let file = token.encode().to_vec();
    assert_eq!(SubscriptionToken::decode(token.encode()).unwrap(), token);
    assert_eq!(id_to_revoke("subscription.token", Some(file)), Ok([0xab; 16]));
    assert_eq!(id_to_revoke("abababababababababababababababab", None), Ok([0xab; 16]));
    assert_eq!(id_to_revoke("no such file", None), Err(IssueError::NoTokenId));
    assert_eq!(id_to_revoke("junk", Some(vec![1, 2])), Err(IssueError::NoTokenId));
}

#[test]
fn reality_files_belong_together() {
    let files = reality_init().unwrap();
    let private = parse_32_bytes(&files.private_key).unwrap();
    assert_eq!(parse_32_bytes(&files.public_key).unwrap(), public_from_private(&private));
    assert_eq!(files.short_id.len(), 16);
    assert!(parse_short_id(&files.short_id).is_ok());
}

#[test]
fn reality_files_spell_out_the_keys() {
    let pair = keypair_from([0x5a; 32]);
    let files = reality_files(&pair, &[0, 1, 2, 3, 4, 5, 6, 0xff]);
    assert_eq!(files.private_key, "5a".repeat(32));
    assert_eq!(parse_32_bytes(&files.public_key), Ok(public_from_private(&[0x5a; 32])));
    assert_eq!(files.short_id, "00010203040506ff");
}
