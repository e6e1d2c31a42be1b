//! The server's leaf certificate. It is made for one connection; in place of
//! the signature of an issuer it holds an HMAC of its public key, which only
//! a client with the same key can check.

use rcgen::{CertificateParams, DnType, KeyPair, SigningKey, PKCS_ED25519};
use rustls::pki_types::{CertificateDer, PrivatePkcs8KeyDer};
use vstd::prelude::*;

use super::auth::{ct_eq, hmac512, hmac_sha512};
use crate::wire::array_at;

verus! {

// ---------------------------------------------------------------------------
// Certificates and their signatures, from rcgen and webpki
// ---------------------------------------------------------------------------

/// The self-signed certificate for a name with an Ed25519 key in PKCS #8.
pub uninterp spec fn self_signed_leaf(pkcs8: Seq<u8>, name: Seq<char>) -> Option<Seq<u8>>;

/// The signature of an Ed25519 key in PKCS #8.
pub uninterp spec fn leaf_signature(pkcs8: Seq<u8>, message: Seq<u8>) -> Option<Seq<u8>>;

/// Whether a certificate parses.
pub uninterp spec fn webpki_parses(der: Seq<u8>) -> bool;

/// Whether a certificate parses and a signature is that of its key.
pub uninterp spec fn webpki_fits(der: Seq<u8>, scheme: LeafScheme, message: Seq<u8>, signature: Seq<u8>) -> bool;

/// `KeyPair::generate_for(&PKCS_ED25519)` and `serialize_der`: a fresh Ed25519
/// key in PKCS #8, `None` where the generator fails. Nothing is promised of
/// its bytes.
#[verifier::external_body]
fn generate_leaf_key() -> (pkcs8: Option<Vec<u8>>) {
    let key = KeyPair::generate_for(&PKCS_ED25519).ok()?;
    Some(key.serialize_der())
}

/// `CertificateParams::new` with one name, the same as common name, and
/// `self_signed` with the key that `KeyPair::from_pkcs8_der_and_sign_algo`
/// reads: the certificate in DER. It depends on key and name alone: rcgen
/// takes the serial number from the key and fixed dates, and Ed25519 signs
/// without random numbers. The signature, 64 bytes, stands last, and the key
/// before it, behind [`ED25519_SPKI_PREFIX`].
#[verifier::external_body]
fn leaf_certificate(pkcs8: &[u8], name: &str) -> (der: Option<Vec<u8>>)
    ensures
        match der {
            Some(der) => self_signed_leaf(pkcs8@, name@) == Some(der@) && carries_key(der@),
            None => self_signed_leaf(pkcs8@, name@) is None,
        },
{
    let key = KeyPair::from_pkcs8_der_and_sign_algo(&PrivatePkcs8KeyDer::from(pkcs8), &PKCS_ED25519).ok()?;
    let mut params = CertificateParams::new(vec![name.to_string()]).ok()?;
    params.distinguished_name.push(DnType::CommonName, name.to_string());
    Some(params.self_signed(&key).ok()?.der().to_vec())
}

/// `KeyPair::sign`, with the key that `KeyPair::from_pkcs8_der_and_sign_algo`
/// reads: an Ed25519 signature.
#[verifier::external_body]
fn sign_with_leaf_key(pkcs8: &[u8], message: &[u8]) -> (signature: Option<Vec<u8>>)
    ensures
        match signature {
            Some(signature) => leaf_signature(pkcs8@, message@) == Some(signature@),
            None => leaf_signature(pkcs8@, message@) is None,
        },
{
    let key = KeyPair::from_pkcs8_der_and_sign_algo(&PrivatePkcs8KeyDer::from(pkcs8), &PKCS_ED25519).ok()?;
    key.sign(message).ok()
}

/// The signature schemes that a leaf may sign with.
#[derive(Clone, Copy, Debug, PartialEq, Eq, Structural)]
pub enum LeafScheme {
    EcdsaP256Sha256,
    EcdsaP384Sha384,
    RsaPssSha256,
    RsaPssSha384,
    Ed25519,
}

/// `EndEntityCert::try_from`: whether webpki takes the certificate.
#[verifier::external_body]
pub(super) fn parses_with_webpki(der: &[u8]) -> (parses: bool)
    ensures
        parses == webpki_parses(der@),
{
    webpki::EndEntityCert::try_from(&CertificateDer::from(der)).is_ok()
}

/// `EndEntityCert::verify_signature` with the algorithm of the scheme; `false`
/// too where the certificate does not parse.
#[verifier::external_body]
pub(super) fn verify_with_webpki(der: &[u8], scheme: LeafScheme, message: &[u8], signature: &[u8]) -> (fits: bool)
    ensures
        fits == webpki_fits(der@, scheme, message@, signature@),
{
    let der = CertificateDer::from(der);
    let algorithm = match scheme {
        LeafScheme::EcdsaP256Sha256 => webpki::ring::ECDSA_P256_SHA256,
        LeafScheme::EcdsaP384Sha384 => webpki::ring::ECDSA_P384_SHA384,
        LeafScheme::RsaPssSha256 => webpki::ring::RSA_PSS_2048_8192_SHA256_LEGACY_KEY,
        LeafScheme::RsaPssSha384 => webpki::ring::RSA_PSS_2048_8192_SHA384_LEGACY_KEY,
        LeafScheme::Ed25519 => webpki::ring::ED25519,
    };
    webpki::EndEntityCert::try_from(&der).is_ok_and(|cert| cert.verify_signature(algorithm, message, signature).is_ok())
}

// ---------------------------------------------------------------------------
// The HMAC
// ---------------------------------------------------------------------------

/// What stands before an Ed25519 key in a certificate.
pub const ED25519_SPKI_PREFIX: [u8; 8] = [0x06, 0x03, 0x2b, 0x65, 0x70, 0x03, 0x21, 0x00];

#[derive(Clone, Copy, Debug, PartialEq, Eq, Structural)]
pub enum LeafError {
    /// no key could be generated
    KeyGeneration,
    /// no certificate could be made for the name
    Certificate,
    /// REALITY HMAC cert is too short
    TooShort,
    /// REALITY HMAC cert has no Ed25519 key
    NoKey,
    /// the key did not sign
    Signature,
}

/// The first place, from `at` on, where the prefix of a key stands with a
/// whole key behind it.
pub open spec fn key_place(der: Seq<u8>, at: int) -> Option<int>
    decreases der.len() - at,
{
    if at + 40 > der.len() {
        None
    } else if der.subrange(at, at + 8) == ED25519_SPKI_PREFIX@ {
        Some(at)
    } else {
        key_place(der, at + 1)
    }
}

/// The Ed25519 key in a certificate.
pub open spec fn ed25519_key_in(der: Seq<u8>) -> Option<Seq<u8>> {
    match key_place(der, 0) {
        Some(at) => Some(der.subrange(at + 8, at + 40)),
        None => None,
    }
}

/// Whether an Ed25519 key stands before the last 64 bytes.
pub open spec fn carries_key(der: Seq<u8>) -> bool {
    key_place(der, 0) matches Some(place) && place + 40 <= der.len() - 64
}

fn ed25519_pubkey_from_der(der: &[u8]) -> (key: Option<[u8; 32]>)
    ensures
        match key {
            Some(key) => ed25519_key_in(der@) == Some(key@),
            None => ed25519_key_in(der@) is None,
        },
{
    let prefix = ED25519_SPKI_PREFIX;
    let mut at: usize = 0;
    while der.len() - at >= 40
        invariant
            at <= der.len(),
            prefix@ == ED25519_SPKI_PREFIX@,
            key_place(der@, 0) == key_place(der@, at as int),
        decreases der.len() - at,
    {
        if crate::wire::same_bytes(vstd::slice::slice_subrange(der, at, at + 8), &prefix) {
            return Some(array_at(der, at + 8));
        }
        at = at + 1;
    }
    None
}

/// A certificate with the HMAC of its key over its signature.
pub open spec fn stamped(auth_key: Seq<u8>, der: Seq<u8>) -> Result<Seq<u8>, LeafError> {
    if der.len() < 64 {
        Err(LeafError::TooShort)
    } else {
        match ed25519_key_in(der) {
            None => Err(LeafError::NoKey),
            Some(key) => Ok(der.take(der.len() - 64) + hmac512(auth_key, key)),
        }
    }
}

/// Whether a certificate ends in the HMAC of its key.
pub open spec fn hmac_fits(auth_key: Seq<u8>, der: Seq<u8>) -> bool {
    &&& der.len() >= 64
    &&& ed25519_key_in(der) matches Some(key)
    &&& hmac512(auth_key, key) == der.skip(der.len() - 64)
}

proof fn lemma_same_place(a: Seq<u8>, b: Seq<u8>, at: int, place: int)
    requires
        0 <= at <= place,
        place + 40 <= a.len() == b.len(),
        key_place(a, at) == Some(place),
        forall|i: int| 0 <= i < place + 40 ==> a[i] == b[i],
    ensures
        key_place(b, at) == Some(place),
    decreases place - at,
{
    assert(a.subrange(at, at + 8) =~= b.subrange(at, at + 8));
    lemma_place_bounds(a, at + 1);
    if at < place {
        lemma_same_place(a, b, at + 1, place);
    }
}

proof fn lemma_place_bounds(der: Seq<u8>, at: int)
    ensures
        key_place(der, at) matches Some(place) ==> at <= place && place + 40 <= der.len(),
    decreases der.len() - at,
{
    if at + 40 <= der.len() && der.subrange(at, at + 8) != ED25519_SPKI_PREFIX@ {
        lemma_place_bounds(der, at + 1);
    }
}

/// Puts the HMAC of a certificate's key in place of its signature. Where the
/// key stands before that, the certificate then passes
/// [`verify_hmac_certificate`] with the same `auth_key`.
pub fn stamp_leaf(auth_key: &[u8; 32], der: Vec<u8>) -> (out: Result<Vec<u8>, LeafError>)
    ensures
        match out {
            Ok(out) => stamped(auth_key@, der@) == Ok::<Seq<u8>, LeafError>(out@) && out@.len() == der@.len(),
            Err(error) => stamped(auth_key@, der@) == Err::<Seq<u8>, LeafError>(error),
        },
        carries_key(der@) ==> (out matches Ok(out) && hmac_fits(auth_key@, out@)),
{
    proof {
        lemma_place_bounds(der@, 0);
    }
    if der.len() < 64 {
        return Err(LeafError::TooShort);
    }
    let public = match ed25519_pubkey_from_der(&der) {
        Some(public) => public,
        None => return Err(LeafError::NoKey),
    };
    let mac = hmac_sha512(auth_key, &public);
    let mut out = vstd::slice::slice_to_vec(vstd::slice::slice_subrange(&der, 0, der.len() - 64));
    out.extend_from_slice(&mac);
    proof {
        assert(out@ =~= der@.take(der@.len() - 64) + mac@);
        if carries_key(der@) {
            let place = key_place(der@, 0)->0;
            lemma_same_place(der@, out@, 0, place);
            assert(out@.subrange(place + 8, place + 40) =~= der@.subrange(place + 8, place + 40));
            assert(out@.skip(out@.len() - 64) =~= mac@);
        }
    }
    Ok(out)
}

/// A leaf certificate, and its key in PKCS #8.
pub struct HmacLeaf {
    pub der: Vec<u8>,
    pub key: Vec<u8>,
}

/// The leaf for a given key.
pub open spec fn leaf_for(auth_key: Seq<u8>, pkcs8: Seq<u8>, name: Seq<char>) -> Result<Seq<u8>, LeafError> {
    match self_signed_leaf(pkcs8, name) {
        Some(der) => stamped(auth_key, der),
        None => Err(LeafError::Certificate),
    }
}

/// Makes the leaf for a given key: it passes [`verify_hmac_certificate`] with
/// the same `auth_key`, and comes wherever rcgen makes a certificate.
pub fn mint_with_key(auth_key: &[u8; 32], pkcs8: Vec<u8>, server_name: &str) -> (leaf: Result<HmacLeaf, LeafError>)
    ensures
        match leaf {
            Ok(leaf) => leaf.key@ == pkcs8@ && leaf_for(auth_key@, pkcs8@, server_name@) == Ok::<Seq<u8>, LeafError>(
                leaf.der@,
            ) && hmac_fits(auth_key@, leaf.der@),
            Err(error) => leaf_for(auth_key@, pkcs8@, server_name@) == Err::<Seq<u8>, LeafError>(error) && error
                == LeafError::Certificate,
        },
{
    match leaf_certificate(&pkcs8, server_name) {
        None => Err(LeafError::Certificate),
        Some(der) => match stamp_leaf(auth_key, der) {
            Ok(der) => Ok(HmacLeaf { der, key: pkcs8 }),
            Err(error) => Err(error),
        },
    }
}

/// Makes a leaf with a key of its own.
pub fn mint_hmac_leaf(auth_key: &[u8; 32], server_name: &str) -> (leaf: Result<HmacLeaf, LeafError>)
    ensures
        match leaf {
            Ok(leaf) => leaf_for(auth_key@, leaf.key@, server_name@) == Ok::<Seq<u8>, LeafError>(leaf.der@)
                && hmac_fits(auth_key@, leaf.der@),
            Err(error) => error == LeafError::KeyGeneration || error == LeafError::Certificate,
        },
{
    match generate_leaf_key() {
        Some(pkcs8) => mint_with_key(auth_key, pkcs8, server_name),
        None => Err(LeafError::KeyGeneration),
    }
}

/// As [`mint_hmac_leaf`]: certificate and key in DER.
pub fn mint_hmac_certificate(auth_key: &[u8; 32], server_name: &str) -> (pair: Result<(Vec<u8>, Vec<u8>), LeafError>)
    ensures
        match pair {
            Ok(pair) => leaf_for(auth_key@, pair.1@, server_name@) == Ok::<Seq<u8>, LeafError>(pair.0@) && hmac_fits(
                auth_key@,
                pair.0@,
            ),
            Err(error) => error == LeafError::KeyGeneration || error == LeafError::Certificate,
        },
{
    match mint_hmac_leaf(auth_key, server_name) {
        Ok(leaf) => Ok((leaf.der, leaf.key)),
        Err(error) => Err(error),
    }
}

pub fn sign_hmac_leaf(leaf: &HmacLeaf, message: &[u8]) -> (signature: Result<Vec<u8>, LeafError>)
    ensures
        match signature {
            Ok(signature) => leaf_signature(leaf.key@, message@) == Some(signature@),
            Err(error) => leaf_signature(leaf.key@, message@) is None && error == LeafError::Signature,
        },
{
    match sign_with_leaf_key(&leaf.key, message) {
        Some(signature) => Ok(signature),
        None => Err(LeafError::Signature),
    }
}

pub fn verify_hmac_certificate(auth_key: &[u8; 32], der: &[u8]) -> (fits: bool)
    ensures
        fits == hmac_fits(auth_key@, der@),
{
    if der.len() < 64 {
        return false;
    }
    match ed25519_pubkey_from_der(der) {
        None => false,
        Some(public) => {
            let mac = hmac_sha512(auth_key, &public);
            let end = vstd::slice::slice_subrange(der, der.len() - 64, der.len());
            assert(end@ =~= der@.skip(der@.len() - 64));
            ct_eq(&mac, end)
        },
    }
}

} // verus!
