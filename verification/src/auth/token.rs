//! The 135-byte subscription token: claims and an Ed25519 signature.

use bytes::Bytes;
use vstd::prelude::*;

use super::keys::{SigningKey, VerifyingKey};
use crate::buffer::{
    bytes_len, bytes_slice, bytes_view, freeze, get_array, get_u32, get_u64, get_u8, new_buffer, put_slice, put_u32,
    put_u64, put_u8,
};
use crate::crypto::{ed25519_fits, ed25519_point, ed25519_sign, ed25519_signature, ed25519_verify};
use crate::text::{decimal, decimal_chars, joined, string_of, text};
use crate::wire::{be_bytes, lemma_be_bytes_len, lemma_be_range, lemma_bytes_of_value, lemma_value_of_bytes};

verus! {

/// `PAYT`.
pub const TOKEN_MAGIC: [u8; 4] = [80, 65, 89, 84];

pub const TOKEN_VERSION: u8 = 1;

pub const TOKEN_ID_SIZE: usize = 16;

pub const CLIENT_ID_SIZE: usize = 16;

pub const SIGNATURE_SIZE: usize = 64;

pub const TOKEN_PAYLOAD_SIZE: usize = 71;

pub const TOKEN_SIZE: usize = 135;

#[derive(Debug, Clone, Copy, PartialEq, Eq, Structural)]
pub enum AuthError {
    /// invalid subscription token length
    InvalidTokenLength,
    /// invalid subscription token magic
    InvalidMagic,
    /// unsupported token version, and the version
    UnsupportedTokenVersion(u8),
    /// unknown subscription plan, and its number
    UnknownPlan(u8),
    /// invalid subscription token signature
    InvalidSignature,
    /// unknown signing key id, and the id
    UnknownKeyId(u32),
    /// subscription token is not active yet
    NotYetValid,
    /// subscription token expired
    Expired,
    /// subscription token was issued in the future
    IssuedInFuture,
    /// subscription token is revoked
    Revoked,
    /// invalid token time range
    InvalidTimeRange,
}

impl AuthError {
    pub open spec fn message_spec(&self) -> Seq<char> {
        match self {
            AuthError::InvalidTokenLength => "invalid subscription token length"@,
            AuthError::InvalidMagic => "invalid subscription token magic"@,
            AuthError::UnsupportedTokenVersion(version) => "unsupported token version: "@ + decimal(*version as nat),
            AuthError::UnknownPlan(code) => "unknown subscription plan: "@ + decimal(*code as nat),
            AuthError::InvalidSignature => "invalid subscription token signature"@,
            AuthError::UnknownKeyId(id) => "unknown signing key id: "@ + decimal(*id as nat),
            AuthError::NotYetValid => "subscription token is not active yet"@,
            AuthError::Expired => "subscription token expired"@,
            AuthError::IssuedInFuture => "subscription token was issued in the future"@,
            AuthError::Revoked => "subscription token is revoked"@,
            AuthError::InvalidTimeRange => "invalid token time range"@,
        }
    }

    /// The error in words.
    pub fn message(&self) -> (message: String)
        ensures
            message@ == self.message_spec(),
    {
        match self {
            AuthError::InvalidTokenLength => text("invalid subscription token length"),
            AuthError::InvalidMagic => text("invalid subscription token magic"),
            AuthError::UnsupportedTokenVersion(version) => joined("unsupported token version: ", &string_of(&decimal_chars(*version as u64))),
            AuthError::UnknownPlan(code) => joined("unknown subscription plan: ", &string_of(&decimal_chars(*code as u64))),
            AuthError::InvalidSignature => text("invalid subscription token signature"),
            AuthError::UnknownKeyId(id) => joined("unknown signing key id: ", &string_of(&decimal_chars(*id as u64))),
            AuthError::NotYetValid => text("subscription token is not active yet"),
            AuthError::Expired => text("subscription token expired"),
            AuthError::IssuedInFuture => text("subscription token was issued in the future"),
            AuthError::Revoked => text("subscription token is revoked"),
            AuthError::InvalidTimeRange => text("invalid token time range"),
        }
    }
}

#[derive(Debug, Clone, Copy, PartialEq, Eq, Structural)]
pub enum SubscriptionPlan {
    Basic,
    Pro,
    Unlimited,
}

impl SubscriptionPlan {
    /// The byte that stands for this plan.
    pub open spec fn code(self) -> u8 {
        match self {
            SubscriptionPlan::Basic => 1,
            SubscriptionPlan::Pro => 2,
            SubscriptionPlan::Unlimited => 3,
        }
    }

    pub fn to_u8(self) -> (code: u8)
        ensures
            code == self.code(),
    {
        match self {
            SubscriptionPlan::Basic => 1,
            SubscriptionPlan::Pro => 2,
            SubscriptionPlan::Unlimited => 3,
        }
    }
}

impl TryFrom<u8> for SubscriptionPlan {
    type Error = AuthError;

    fn try_from(value: u8) -> (result: Result<Self, AuthError>) {
        match value {
            1 => Ok(SubscriptionPlan::Basic),
            2 => Ok(SubscriptionPlan::Pro),
            3 => Ok(SubscriptionPlan::Unlimited),
            _ => Err(AuthError::UnknownPlan(value)),
        }
    }
}

impl vstd::std_specs::convert::TryFromSpecImpl<u8> for SubscriptionPlan {
    open spec fn obeys_try_from_spec() -> bool {
        true
    }

    /// The plan whose code is `v`.
    open spec fn try_from_spec(v: u8) -> Result<Self, AuthError> {
        if v == 1 {
            Ok(SubscriptionPlan::Basic)
        } else if v == 2 {
            Ok(SubscriptionPlan::Pro)
        } else if v == 3 {
            Ok(SubscriptionPlan::Unlimited)
        } else {
            Err(AuthError::UnknownPlan(v))
        }
    }
}

#[derive(Debug, Clone, Copy, PartialEq, Eq)]
pub struct SubscriptionClaims {
    pub key_id: u32,
    pub token_id: [u8; TOKEN_ID_SIZE],
    pub client_id: [u8; CLIENT_ID_SIZE],
    pub issued_at: u64,
    pub not_before: u64,
    pub expires_at: u64,
    pub plan: SubscriptionPlan,
    pub device_limit: u8,
    pub max_mbps: u32,
}

#[derive(Debug, Clone, Copy, PartialEq, Eq)]
pub struct SubscriptionToken {
    pub claims: SubscriptionClaims,
    pub signature: [u8; SIGNATURE_SIZE],
}

/// The first fault counts: length, magic, version, plan.
pub open spec fn token_fault(data: Seq<u8>) -> Option<AuthError> {
    if data.len() != TOKEN_SIZE {
        Some(AuthError::InvalidTokenLength)
    } else if data.take(4) != TOKEN_MAGIC@ {
        Some(AuthError::InvalidMagic)
    } else if data[4] != TOKEN_VERSION {
        Some(AuthError::UnsupportedTokenVersion(data[4]))
    } else if !(1 <= data[65] <= 3) {
        Some(AuthError::UnknownPlan(data[65]))
    } else {
        None
    }
}

impl SubscriptionClaims {
    /// What the signature covers: magic, version, key, token, client, the
    /// three times, plan, devices, speed.
    pub open spec fn wire(self) -> Seq<u8> {
        TOKEN_MAGIC@ + seq![TOKEN_VERSION] + be_bytes(self.key_id as nat, 4) + self.token_id@ + self.client_id@
            + be_bytes(self.issued_at as nat, 8) + be_bytes(self.not_before as nat, 8) + be_bytes(
            self.expires_at as nat,
            8,
        ) + seq![self.plan.code(), self.device_limit] + be_bytes(self.max_mbps as nat, 4)
    }

    pub fn encode_payload(&self) -> (out: Bytes)
        ensures
            bytes_view(out) == self.wire(),
            bytes_view(out).len() == TOKEN_PAYLOAD_SIZE,
    {
        let mut buffer = new_buffer(TOKEN_PAYLOAD_SIZE);
        proof {
            lemma_be_bytes_len(self.key_id as nat, 4);
            lemma_be_bytes_len(self.issued_at as nat, 8);
            lemma_be_bytes_len(self.not_before as nat, 8);
            lemma_be_bytes_len(self.expires_at as nat, 8);
            lemma_be_bytes_len(self.max_mbps as nat, 4);
        }
        let magic = TOKEN_MAGIC;
        put_slice(&mut buffer, &magic);
        put_u8(&mut buffer, TOKEN_VERSION);
        put_u32(&mut buffer, self.key_id);
        put_slice(&mut buffer, &self.token_id);
        put_slice(&mut buffer, &self.client_id);
        put_u64(&mut buffer, self.issued_at);
        put_u64(&mut buffer, self.not_before);
        put_u64(&mut buffer, self.expires_at);
        put_u8(&mut buffer, self.plan.to_u8());
        put_u8(&mut buffer, self.device_limit);
        put_u32(&mut buffer, self.max_mbps);
        let out = freeze(buffer);
        assert(bytes_view(out) =~= self.wire());
        out
    }
}

impl SubscriptionToken {
    /// The claims and their signature.
    pub open spec fn wire(self) -> Seq<u8> {
        self.claims.wire() + self.signature@
    }

    /// Whether the signature is one of `key` over the claims.
    pub open spec fn signed_by(self, key: VerifyingKey) -> bool {
        ed25519_fits(key.bytes@, self.claims.wire(), self.signature@)
    }

    /// The token carries the claims, and whoever has the public half of the
    /// key sees that it was signed with it.
    pub fn sign(claims: SubscriptionClaims, signing_key: &SigningKey) -> (token: Self)
        ensures
            token.claims == claims,
            token.signature@ == ed25519_sign(signing_key.secret@, claims.wire()),
            forall|key: VerifyingKey|
                key.bytes@ == ed25519_point(signing_key.secret@) ==> #[trigger] token.signed_by(key),
    {
        let payload = claims.encode_payload();
        let signature: [u8; SIGNATURE_SIZE] = ed25519_signature(&signing_key.secret, bytes_slice(&payload));
        SubscriptionToken { claims, signature }
    }

    pub fn verify_signature(&self, verifying_key: &VerifyingKey) -> (result: Result<(), AuthError>)
        ensures
            match result {
                Ok(_) => self.signed_by(*verifying_key),
                Err(error) => !self.signed_by(*verifying_key) && error == AuthError::InvalidSignature,
            },
    {
        let payload = self.claims.encode_payload();
        if ed25519_verify(&verifying_key.bytes, bytes_slice(&payload), &self.signature) {
            Ok(())
        } else {
            Err(AuthError::InvalidSignature)
        }
    }

    pub fn encode(&self) -> (out: Bytes)
        ensures
            bytes_view(out) == self.wire(),
            bytes_view(out).len() == TOKEN_SIZE,
    {
        let payload = self.claims.encode_payload();
        let mut buffer = new_buffer(TOKEN_SIZE);
        put_slice(&mut buffer, bytes_slice(&payload));
        put_slice(&mut buffer, &self.signature);
        let out = freeze(buffer);
        assert(bytes_view(out) =~= self.wire());
        out
    }

    pub fn decode(buffer: Bytes) -> (result: Result<Self, AuthError>)
        ensures
            match result {
                Ok(token) => token_fault(bytes_view(buffer)) is None && token.wire() == bytes_view(buffer),
                Err(error) => token_fault(bytes_view(buffer)) == Some(error),
            },
    {
        let ghost data = bytes_view(buffer);
        let mut buffer = buffer;
        if bytes_len(&buffer) != TOKEN_SIZE {
            return Err(AuthError::InvalidTokenLength);
        }
        let magic: [u8; 4] = get_array(&mut buffer);
        if !(magic[0] == 80 && magic[1] == 65 && magic[2] == 89 && magic[3] == 84) {
            assert(data.take(4) != TOKEN_MAGIC@) by {
                assert(magic@ =~= data.take(4));
            }
            return Err(AuthError::InvalidMagic);
        }
        assert(data.take(4) =~= TOKEN_MAGIC@);
        let version: u8 = get_u8(&mut buffer);
        assert(version == data[4]);
        if version != TOKEN_VERSION {
            return Err(AuthError::UnsupportedTokenVersion(version));
        }
        let key_id: u32 = get_u32(&mut buffer);
        let token_id: [u8; TOKEN_ID_SIZE] = get_array(&mut buffer);
        let client_id: [u8; CLIENT_ID_SIZE] = get_array(&mut buffer);
        let issued_at: u64 = get_u64(&mut buffer);
        let not_before: u64 = get_u64(&mut buffer);
        let expires_at: u64 = get_u64(&mut buffer);
        assert(bytes_view(buffer) =~= data.skip(65));
        let plan = match SubscriptionPlan::try_from(get_u8(&mut buffer)) {
            Ok(plan) => plan,
            Err(error) => return Err(error),
        };
        let device_limit: u8 = get_u8(&mut buffer);
        let max_mbps: u32 = get_u32(&mut buffer);
        let signature: [u8; SIGNATURE_SIZE] = get_array(&mut buffer);
        let token = SubscriptionToken {
            claims: SubscriptionClaims {
                key_id,
                token_id,
                client_id,
                issued_at,
                not_before,
                expires_at,
                plan,
                device_limit,
                max_mbps,
            },
            signature,
        };
        proof {
            let d = data.skip(4).skip(1);
            assert(d.take(4) =~= data.subrange(5, 9));
            assert(d.skip(4).take(16) =~= data.subrange(9, 25));
            assert(d.skip(4).skip(16).take(16) =~= data.subrange(25, 41));
            let e = d.skip(4).skip(16).skip(16);
            assert(e.take(8) =~= data.subrange(41, 49));
            assert(e.skip(8).take(8) =~= data.subrange(49, 57));
            assert(e.skip(8).skip(8).take(8) =~= data.subrange(57, 65));
            assert(data.skip(65).skip(1).skip(1).take(4) =~= data.subrange(67, 71));
            assert(data.skip(65).skip(1).skip(1).skip(4).take(64) =~= data.subrange(71, 135));
            lemma_bytes_of_value(data.subrange(5, 9));
            lemma_bytes_of_value(data.subrange(41, 49));
            lemma_bytes_of_value(data.subrange(49, 57));
            lemma_bytes_of_value(data.subrange(57, 65));
            lemma_bytes_of_value(data.subrange(67, 71));
            assert(token.claims.wire() =~= data.take(71));
            assert(token.wire() =~= data);
        }
        Ok(token)
    }
}

/// Every token is 135 bytes, decoding what was encoded gives the token back,
/// and nothing else does.
pub proof fn law_token_roundtrip(a: SubscriptionToken, b: SubscriptionToken)
    ensures
        a.wire().len() == TOKEN_SIZE,
        token_fault(a.wire()) is None,
        a.wire() == b.wire() ==> a == b,
{
    lemma_claims_fields(a.claims);
    lemma_claims_fields(b.claims);
    assert(a.wire().take(71) =~= a.claims.wire() && a.wire().skip(71) =~= a.signature@);
    assert(b.wire().take(71) =~= b.claims.wire() && b.wire().skip(71) =~= b.signature@);
    assert(a.wire().take(4) =~= a.claims.wire().take(4));
    assert(a.wire()[4] == a.claims.wire()[4] && a.wire()[65] == a.claims.wire()[65]);
    if a.wire() == b.wire() {
        law_claims_injective(a.claims, b.claims);
        assert(a.signature =~= b.signature);
    }
}

/// The signed bytes decide every claim.
pub proof fn law_claims_injective(a: SubscriptionClaims, b: SubscriptionClaims)
    ensures
        a.wire() == b.wire() ==> a == b,
{
    lemma_be_range();
    lemma_claims_fields(a);
    lemma_claims_fields(b);
    lemma_value_of_bytes(a.key_id as nat, 4);
    lemma_value_of_bytes(b.key_id as nat, 4);
    lemma_value_of_bytes(a.issued_at as nat, 8);
    lemma_value_of_bytes(b.issued_at as nat, 8);
    lemma_value_of_bytes(a.not_before as nat, 8);
    lemma_value_of_bytes(b.not_before as nat, 8);
    lemma_value_of_bytes(a.expires_at as nat, 8);
    lemma_value_of_bytes(b.expires_at as nat, 8);
    lemma_value_of_bytes(a.max_mbps as nat, 4);
    lemma_value_of_bytes(b.max_mbps as nat, 4);
    if a.wire() == b.wire() {
        assert(a.token_id =~= b.token_id);
        assert(a.client_id =~= b.client_id);
    }
}

proof fn lemma_claims_fields(c: SubscriptionClaims)
    ensures
        c.wire().len() == TOKEN_PAYLOAD_SIZE,
        c.wire().take(4) == TOKEN_MAGIC@,
        c.wire()[4] == TOKEN_VERSION,
        c.wire().subrange(5, 9) == be_bytes(c.key_id as nat, 4),
        c.wire().subrange(9, 25) == c.token_id@,
        c.wire().subrange(25, 41) == c.client_id@,
        c.wire().subrange(41, 49) == be_bytes(c.issued_at as nat, 8),
        c.wire().subrange(49, 57) == be_bytes(c.not_before as nat, 8),
        c.wire().subrange(57, 65) == be_bytes(c.expires_at as nat, 8),
        c.wire()[65] == c.plan.code(),
        c.wire()[66] == c.device_limit,
        c.wire().subrange(67, 71) == be_bytes(c.max_mbps as nat, 4),
{
    lemma_be_bytes_len(c.key_id as nat, 4);
    lemma_be_bytes_len(c.issued_at as nat, 8);
    lemma_be_bytes_len(c.not_before as nat, 8);
    lemma_be_bytes_len(c.expires_at as nat, 8);
    lemma_be_bytes_len(c.max_mbps as nat, 4);
    assert(c.wire().take(4) =~= TOKEN_MAGIC@);
    assert(c.wire().subrange(5, 9) =~= be_bytes(c.key_id as nat, 4));
    assert(c.wire().subrange(9, 25) =~= c.token_id@);
    assert(c.wire().subrange(25, 41) =~= c.client_id@);
    assert(c.wire().subrange(41, 49) =~= be_bytes(c.issued_at as nat, 8));
    assert(c.wire().subrange(49, 57) =~= be_bytes(c.not_before as nat, 8));
    assert(c.wire().subrange(57, 65) =~= be_bytes(c.expires_at as nat, 8));
    assert(c.wire().subrange(67, 71) =~= be_bytes(c.max_mbps as nat, 4));
}

} // verus!
