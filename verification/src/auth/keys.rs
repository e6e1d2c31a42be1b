//! Ed25519 keys and the ring of keys that tokens may be signed with.

use std::collections::HashMap;
use vstd::prelude::*;

use super::token::AuthError;
use crate::crypto::{ed25519_is_key, ed25519_key_ok, ed25519_point, ed25519_public_key};
use crate::random::os_random_array;

verus! {

/// An Ed25519 public key.
#[derive(Debug, Clone, Copy, PartialEq, Eq)]
pub struct VerifyingKey {
    pub bytes: [u8; 32],
}

impl VerifyingKey {
    /// The key, where the bytes are a point on the curve.
    pub fn from_bytes(bytes: &[u8; 32]) -> (key: Option<VerifyingKey>)
        ensures
            key == (if ed25519_is_key(bytes@) {
                Some(VerifyingKey { bytes: *bytes })
            } else {
                None
            }),
    {
        if ed25519_key_ok(bytes) {
            Some(VerifyingKey { bytes: *bytes })
        } else {
            None
        }
    }

    pub fn to_bytes(&self) -> (bytes: [u8; 32])
        ensures
            bytes == self.bytes,
    {
        self.bytes
    }
}

/// An Ed25519 secret key.
#[derive(Clone, Copy)]
pub struct SigningKey {
    pub secret: [u8; 32],
}

impl SigningKey {
    pub fn from_bytes(secret: &[u8; 32]) -> (key: SigningKey)
        ensures
            key.secret == *secret,
    {
        SigningKey { secret: *secret }
    }

    pub fn to_bytes(&self) -> (secret: [u8; 32])
        ensures
            secret == self.secret,
    {
        self.secret
    }

    pub fn verifying_key(&self) -> (key: VerifyingKey)
        ensures
            key.bytes@ == ed25519_point(self.secret@),
            ed25519_is_key(key.bytes@),
    {
        VerifyingKey { bytes: ed25519_public_key(&self.secret) }
    }
}

/// The public keys that tokens may be signed with, by number.
pub struct VerificationKeyRing {
    keys: HashMap<u32, VerifyingKey>,
}

impl View for VerificationKeyRing {
    type V = Map<u32, VerifyingKey>;

    closed spec fn view(&self) -> Map<u32, VerifyingKey> {
        self.keys@
    }
}

impl VerificationKeyRing {
    pub fn new() -> (ring: Self)
        ensures
            ring@ == Map::<u32, VerifyingKey>::empty(),
    {
        VerificationKeyRing { keys: HashMap::new() }
    }

    pub fn insert(&mut self, key_id: u32, key: VerifyingKey)
        ensures
            final(self)@ == old(self)@.insert(key_id, key),
    {
        broadcast use vstd::std_specs::hash::group_hash_axioms;

        self.keys.insert(key_id, key);
    }

    pub fn get(&self, key_id: u32) -> (key: Result<&VerifyingKey, AuthError>)
        ensures
            match key {
                Ok(key) => self@.contains_key(key_id) && *key == self@[key_id],
                Err(error) => !self@.contains_key(key_id) && error == AuthError::UnknownKeyId(key_id),
            },
    {
        broadcast use vstd::std_specs::hash::group_hash_axioms;

        match self.keys.get(&key_id) {
            Some(key) => Ok(key),
            None => Err(AuthError::UnknownKeyId(key_id)),
        }
    }
}

impl Default for VerificationKeyRing {
    fn default() -> (ring: Self)
        ensures
            ring@ == Map::<u32, VerifyingKey>::empty(),
    {
        Self::new()
    }
}

/// The operating system had no random bytes to give.
#[derive(Debug, Clone, Copy, PartialEq, Eq, Structural)]
pub struct NoRandomness;

/// A signing key made of random bytes of the operating system. Which key, and
/// whether there is one, is the system's to say.
pub fn generate_signing_key() -> (key: Result<SigningKey, NoRandomness>) {
    match os_random_array() {
        Some(secret) => Ok(SigningKey::from_bytes(&secret)),
        None => Err(NoRandomness),
    }
}

} // verus!
