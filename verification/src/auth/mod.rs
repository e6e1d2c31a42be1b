//! Subscription tokens: signing, encoding and verifying them.

pub mod keys;
pub mod laws;
pub mod token;
pub mod verify;

pub use keys::{generate_signing_key, NoRandomness, SigningKey, VerificationKeyRing, VerifyingKey};
pub use token::{
    AuthError, SubscriptionClaims, SubscriptionPlan, SubscriptionToken, CLIENT_ID_SIZE, SIGNATURE_SIZE, TOKEN_ID_SIZE,
    TOKEN_MAGIC, TOKEN_PAYLOAD_SIZE, TOKEN_SIZE, TOKEN_VERSION,
};
pub use verify::{
    append_revoked_id, load_revoked_ids, parse_token_id_hex, token_id_hex, FileRevocationStore, MemoryRevocationStore,
    RevocationStore, SubscriptionVerifier, CLOCK_SKEW_SECONDS,
};
