//! Hashes, ciphers, key agreement and signatures from the RustCrypto, dalek
//! and libcrux crates. What they compute is named here and computed there.

use aes_gcm::aead::{Aead, KeyInit, Payload};
use aes_gcm::{Aes128Gcm, Aes256Gcm};
use chacha20poly1305::ChaCha20Poly1305;
use ed25519_dalek::{Signer, Verifier};
use sha2::{Digest, Sha256, Sha384, Sha512};
use vstd::prelude::*;
use x25519_dalek::{PublicKey, StaticSecret};

verus! {

/// AES-GCM takes messages, and data beside them, of at most so many bytes. No
/// cipher here takes less.
pub const AEAD_LIMIT: u64 = 0x10_0000_0000;

/// ChaCha20-Poly1305 takes messages of at most so many bytes.
pub const CHACHA_LIMIT: u64 = 0x3f_ffff_ff80;

/// What a cipher adds to the length of a message.
pub const AEAD_TAG: usize = 16;

// ---------------------------------------------------------------------------
// Hashes
// ---------------------------------------------------------------------------

/// SHA-256 of some bytes.
pub uninterp spec fn sha256(data: Seq<u8>) -> Seq<u8>;

/// SHA-384 of some bytes.
pub uninterp spec fn sha384(data: Seq<u8>) -> Seq<u8>;

/// SHA-512 of some bytes.
pub uninterp spec fn sha512(data: Seq<u8>) -> Seq<u8>;

/// `Sha256::digest`.
#[verifier::external_body]
pub(crate) fn sha256_digest(data: &[u8]) -> (out: [u8; 32])
    ensures
        out@ == sha256(data@),
{
    Sha256::digest(data).into()
}

/// `Sha384::digest`.
#[verifier::external_body]
pub(crate) fn sha384_digest(data: &[u8]) -> (out: [u8; 48])
    ensures
        out@ == sha384(data@),
{
    Sha384::digest(data).into()
}

/// `Sha512::digest`.
#[verifier::external_body]
pub(crate) fn sha512_digest(data: &[u8]) -> (out: [u8; 64])
    ensures
        out@ == sha512(data@),
{
    Sha512::digest(data).into()
}

// ---------------------------------------------------------------------------
// Authenticated encryption
// ---------------------------------------------------------------------------

/// AES-128-GCM encryption.
pub uninterp spec fn aes128_seal(key: Seq<u8>, nonce: Seq<u8>, aad: Seq<u8>, message: Seq<u8>) -> Seq<u8>;

/// AES-128-GCM decryption; nothing where the tag does not fit.
pub uninterp spec fn aes128_open(key: Seq<u8>, nonce: Seq<u8>, aad: Seq<u8>, sealed: Seq<u8>) -> Option<Seq<u8>>;

/// AES-256-GCM encryption.
pub uninterp spec fn aes256_seal(key: Seq<u8>, nonce: Seq<u8>, aad: Seq<u8>, message: Seq<u8>) -> Seq<u8>;

/// AES-256-GCM decryption; nothing where the tag does not fit.
pub uninterp spec fn aes256_open(key: Seq<u8>, nonce: Seq<u8>, aad: Seq<u8>, sealed: Seq<u8>) -> Option<Seq<u8>>;

/// ChaCha20-Poly1305 encryption.
pub uninterp spec fn chacha_seal(key: Seq<u8>, nonce: Seq<u8>, aad: Seq<u8>, message: Seq<u8>) -> Seq<u8>;

/// ChaCha20-Poly1305 decryption; nothing where the tag does not fit.
pub uninterp spec fn chacha_open(key: Seq<u8>, nonce: Seq<u8>, aad: Seq<u8>, sealed: Seq<u8>) -> Option<Seq<u8>>;

/// `Aes128Gcm::encrypt`: the message grows by a 16-byte tag and decrypts to
/// itself.
#[verifier::external_body]
pub(crate) fn aes128_encrypt(key: &[u8; 16], nonce: &[u8; 12], aad: &[u8], message: &[u8]) -> (out: Vec<u8>)
    requires
        message@.len() <= AEAD_LIMIT,
        aad@.len() <= AEAD_LIMIT,
    ensures
        out@ == aes128_seal(key@, nonce@, aad@, message@),
        out@.len() == message@.len() + AEAD_TAG,
        aes128_open(key@, nonce@, aad@, out@) == Some(message@),
{
    let cipher = Aes128Gcm::new(key.into());
    cipher.encrypt(nonce.into(), Payload { msg: message, aad }).expect("message within the limit")
}

/// `Aes128Gcm::decrypt`: the message without its tag, or nothing.
#[verifier::external_body]
pub(crate) fn aes128_decrypt(key: &[u8; 16], nonce: &[u8; 12], aad: &[u8], sealed: &[u8]) -> (out: Option<Vec<u8>>)
    ensures
        match out {
            Some(message) => aes128_open(key@, nonce@, aad@, sealed@) == Some(message@) && sealed@.len()
                == message@.len() + AEAD_TAG,
            None => aes128_open(key@, nonce@, aad@, sealed@) is None,
        },
{
    let cipher = Aes128Gcm::new(key.into());
    cipher.decrypt(nonce.into(), Payload { msg: sealed, aad }).ok()
}

/// `Aes256Gcm::encrypt`: the message grows by a 16-byte tag and decrypts to
/// itself.
#[verifier::external_body]
pub(crate) fn aes256_encrypt(key: &[u8; 32], nonce: &[u8; 12], aad: &[u8], message: &[u8]) -> (out: Vec<u8>)
    requires
        message@.len() <= AEAD_LIMIT,
        aad@.len() <= AEAD_LIMIT,
    ensures
        out@ == aes256_seal(key@, nonce@, aad@, message@),
        out@.len() == message@.len() + AEAD_TAG,
        aes256_open(key@, nonce@, aad@, out@) == Some(message@),
{
    let cipher = Aes256Gcm::new(key.into());
    cipher.encrypt(nonce.into(), Payload { msg: message, aad }).expect("message within the limit")
}

/// `Aes256Gcm::decrypt`: the message without its tag, or nothing.
#[verifier::external_body]
pub(crate) fn aes256_decrypt(key: &[u8; 32], nonce: &[u8; 12], aad: &[u8], sealed: &[u8]) -> (out: Option<Vec<u8>>)
    ensures
        match out {
            Some(message) => aes256_open(key@, nonce@, aad@, sealed@) == Some(message@) && sealed@.len()
                == message@.len() + AEAD_TAG,
            None => aes256_open(key@, nonce@, aad@, sealed@) is None,
        },
{
    let cipher = Aes256Gcm::new(key.into());
    cipher.decrypt(nonce.into(), Payload { msg: sealed, aad }).ok()
}

/// `ChaCha20Poly1305::encrypt`: the message grows by a 16-byte tag and
/// decrypts to itself.
#[verifier::external_body]
pub(crate) fn chacha_encrypt(key: &[u8; 32], nonce: &[u8; 12], aad: &[u8], message: &[u8]) -> (out: Vec<u8>)
    requires
        message@.len() <= CHACHA_LIMIT,
    ensures
        out@ == chacha_seal(key@, nonce@, aad@, message@),
        out@.len() == message@.len() + AEAD_TAG,
        chacha_open(key@, nonce@, aad@, out@) == Some(message@),
{
    let cipher = ChaCha20Poly1305::new(key.into());
    cipher.encrypt(nonce.into(), Payload { msg: message, aad }).expect("message within the limit")
}

/// `ChaCha20Poly1305::decrypt`: the message without its tag, or nothing.
#[verifier::external_body]
pub(crate) fn chacha_decrypt(key: &[u8; 32], nonce: &[u8; 12], aad: &[u8], sealed: &[u8]) -> (out: Option<Vec<u8>>)
    requires
        sealed@.len() <= CHACHA_LIMIT + AEAD_TAG,
    ensures
        match out {
            Some(message) => chacha_open(key@, nonce@, aad@, sealed@) == Some(message@) && sealed@.len()
                == message@.len() + AEAD_TAG,
            None => chacha_open(key@, nonce@, aad@, sealed@) is None,
        },
{
    let cipher = ChaCha20Poly1305::new(key.into());
    cipher.decrypt(nonce.into(), Payload { msg: sealed, aad }).ok()
}

// ---------------------------------------------------------------------------
// X25519 and ML-KEM-768
// ---------------------------------------------------------------------------

/// The X25519 public key of a private key.
pub uninterp spec fn x25519_point(private: Seq<u8>) -> Seq<u8>;

/// The X25519 secret that a private key shares with a peer's public key.
pub uninterp spec fn x25519_secret(private: Seq<u8>, peer: Seq<u8>) -> Seq<u8>;

/// The ML-KEM-768 public key that a seed generates.
pub uninterp spec fn mlkem768_key(seed: Seq<u8>) -> Seq<u8>;

/// `PublicKey::from(&StaticSecret)`.
#[verifier::external_body]
pub(crate) fn x25519_public_key(private: &[u8; 32]) -> (out: [u8; 32])
    ensures
        out@ == x25519_point(private@),
{
    PublicKey::from(&StaticSecret::from(*private)).to_bytes()
}

/// `StaticSecret::diffie_hellman`: whoever holds the private key behind
/// `peer` computes the same secret from the public key of `private`.
#[verifier::external_body]
pub(crate) fn x25519_agree(private: &[u8; 32], peer: &[u8; 32]) -> (out: [u8; 32])
    ensures
        out@ == x25519_secret(private@, peer@),
        forall|other: Seq<u8>|
            other.len() == 32 && #[trigger] x25519_point(other) == peer@ ==> x25519_secret(other, x25519_point(private@))
                == out@,
{
    StaticSecret::from(*private).diffie_hellman(&PublicKey::from(*peer)).to_bytes()
}

/// `libcrux_ml_kem::mlkem768::generate_key_pair`, its public half.
#[verifier::external_body]
pub(crate) fn mlkem768_public_key(seed: &[u8; 64]) -> (out: [u8; 1184])
    ensures
        out@ == mlkem768_key(seed@),
{
    *libcrux_ml_kem::mlkem768::generate_key_pair(*seed).pk()
}

// ---------------------------------------------------------------------------
// Ed25519
// ---------------------------------------------------------------------------

/// The Ed25519 public key of a secret key.
pub uninterp spec fn ed25519_point(secret: Seq<u8>) -> Seq<u8>;

/// The Ed25519 signature of a message.
pub uninterp spec fn ed25519_sign(secret: Seq<u8>, message: Seq<u8>) -> Seq<u8>;

/// Whether an Ed25519 signature fits a message and a public key.
pub uninterp spec fn ed25519_fits(public: Seq<u8>, message: Seq<u8>, signature: Seq<u8>) -> bool;

/// Whether some bytes are an Ed25519 public key.
pub uninterp spec fn ed25519_is_key(public: Seq<u8>) -> bool;

/// `SigningKey::verifying_key`: a public key.
#[verifier::external_body]
pub(crate) fn ed25519_public_key(secret: &[u8; 32]) -> (out: [u8; 32])
    ensures
        out@ == ed25519_point(secret@),
        ed25519_is_key(out@),
{
    ed25519_dalek::SigningKey::from_bytes(secret).verifying_key().to_bytes()
}

/// `SigningKey::sign`: the signature fits the message and the key's public
/// half.
#[verifier::external_body]
pub(crate) fn ed25519_signature(secret: &[u8; 32], message: &[u8]) -> (out: [u8; 64])
    ensures
        out@ == ed25519_sign(secret@, message@),
        ed25519_fits(ed25519_point(secret@), message@, out@),
{
    ed25519_dalek::SigningKey::from_bytes(secret).sign(message).to_bytes()
}

/// `VerifyingKey::verify`, false for bytes that are no public key.
#[verifier::external_body]
pub(crate) fn ed25519_verify(public: &[u8; 32], message: &[u8], signature: &[u8; 64]) -> (fits: bool)
    ensures
        fits == ed25519_fits(public@, message@, signature@),
{
    let signature = ed25519_dalek::Signature::from_bytes(signature);
    match ed25519_dalek::VerifyingKey::from_bytes(public) {
        Ok(key) => key.verify(message, &signature).is_ok(),
        Err(_) => false,
    }
}

/// `VerifyingKey::from_bytes`: whether the bytes are a point on the curve.
#[verifier::external_body]
pub(crate) fn ed25519_key_ok(public: &[u8; 32]) -> (ok: bool)
    ensures
        ok == ed25519_is_key(public@),
{
    ed25519_dalek::VerifyingKey::from_bytes(public).is_ok()
}

} // verus!
