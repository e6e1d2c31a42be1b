//! The handshake messages that client and server exchange after the hellos,
//! and what can be wrong with a connection.

use vstd::prelude::*;

use super::cert::{
    leaf_signature, parses_with_webpki, sign_hmac_leaf, verify_with_webpki, webpki_fits, webpki_parses, HmacLeaf,
    LeafError, LeafScheme,
};
use super::hello::{body_of, byte_views, find_run_end, run_end, ALPN_H2, EXT_ALPN};
use super::hello_build::{entry_wire, handshake_msg, message_wire, push_entry, push_run, run_of, run_wire};
use super::suite::{RecordError, TrafficKeys};
use crate::crypto::AEAD_LIMIT;
use crate::wire::{be_bytes, be_value, push_be, read_u16, same_bytes};

verus! {

/// What is wrong with a Certificate message.
#[derive(Clone, Copy, Debug, PartialEq, Eq, Structural)]
pub enum CertificateFault {
    /// truncated Certificate
    Truncated,
    /// no cert list
    NoList,
    /// truncated cert list
    TruncatedList,
    /// no leaf length
    NoLeafLength,
    /// truncated leaf
    TruncatedLeaf,
}

/// What is wrong with a CertificateVerify message.
#[derive(Clone, Copy, Debug, PartialEq, Eq, Structural)]
pub enum VerifyFault {
    /// truncated CertificateVerify
    Truncated,
    /// no scheme
    NoScheme,
    /// no sig len
    NoSignatureLength,
    /// truncated signature
    TruncatedSignature,
    /// the leaf certificate does not parse
    BadLeaf,
    /// unsupported CertificateVerify scheme
    UnsupportedScheme(u16),
    /// the signature is not that of the leaf
    BadSignature,
}

#[derive(Clone, Copy, Debug, PartialEq, Eq, Structural)]
pub enum TlsError {
    /// invalid tls record length
    RecordLength,
    /// the connection ended within a record
    UnexpectedEof,
    /// nothing could be written
    WriteZero,
    /// a record did not open
    Record(RecordError),
    /// expected handshake record for ServerHello
    NoServerHelloRecord,
    /// expected ServerHello
    NoServerHello,
    /// bad ServerHello
    BadServerHello,
    /// unsupported ServerHello cipher
    UnsupportedCipher,
    /// ServerHello missing X25519 key_share
    NoServerKey,
    /// unexpected inner type during handshake
    InnerType,
    Certificate(CertificateFault),
    /// REALITY TLS cert HMAC mismatch
    WrongCertificate,
    /// CertificateVerify before Certificate
    NoCertificate,
    CertificateVerify(VerifyFault),
    /// short server Finished
    ShortFinished,
    /// server Finished mismatch
    WrongFinished,
    /// unexpected handshake type
    Message(u8),
    /// unexpected TLS record during handshake
    HandshakeRecord(u8),
    /// expected ClientHello record
    NoClientHelloRecord,
    /// bad ClientHello
    BadClientHello,
    /// ClientHello missing X25519
    NoClientKey,
    /// truncated ClientHello
    TruncatedClientHello,
    /// expected a single ClientHello
    NotOneClientHello,
    /// the server's certificate could not be made
    Leaf(LeafError),
    /// a message is too long for a record
    TooLong,
    /// expected client handshake Finished
    NoClientHandshake,
    /// truncated client Finished
    TruncatedFinished,
    /// expected client Finished
    NoFinished,
    /// client Finished mismatch
    WrongClientFinished,
    /// unexpected TLS record after ServerHello
    RecordAfterHello(u8),
    /// tls alert
    Alert,
    /// unexpected tls inner type
    Inner(u8),
    /// unexpected tls record
    UnexpectedRecord(u8),
    /// the operating system gave no random bytes
    NoRandomness,
}

// ---------------------------------------------------------------------------
// Framing
// ---------------------------------------------------------------------------

/// A record in the clear.
pub open spec fn plain_record(typ: u8, body: Seq<u8>) -> Seq<u8> {
    seq![typ, 3u8, 3u8] + run_wire(body)
}

pub fn tls_record(typ: u8, body: &[u8]) -> (record: Vec<u8>)
    ensures
        record@ == plain_record(typ, body@),
{
    let mut record: Vec<u8> = Vec::new();
    record.push(typ);
    record.push(3);
    record.push(3);
    assert(record@ =~= seq![typ, 3u8, 3u8]);
    push_run(&mut record, body);
    record
}

/// Where the first handshake message in a buffer ends, if it is there in
/// full.
pub open spec fn message_end(buf: Seq<u8>) -> Option<int> {
    if buf.len() < 4 {
        None
    } else {
        run_end(buf, 1, 3)
    }
}

pub fn split_handshake(buf: &[u8]) -> (parts: Option<(Vec<u8>, Vec<u8>)>)
    ensures
        match parts {
            Some((msg, rest)) => {
                &&& message_end(buf@) == Some(msg@.len() as int)
                &&& msg@ == buf@.take(msg@.len() as int)
                &&& rest@ == buf@.skip(msg@.len() as int)
                &&& 4 <= msg@.len() <= buf@.len()
            },
            None => message_end(buf@) is None,
        },
{
    if buf.len() < 4 {
        return None;
    }
    match find_run_end(buf, 1, 3) {
        None => None,
        Some(end) => {
            let msg = vstd::slice::slice_to_vec(vstd::slice::slice_subrange(buf, 0, end));
            let rest = vstd::slice::slice_to_vec(vstd::slice::slice_subrange(buf, end, buf.len()));
            assert(msg@ =~= buf@.take(end as int));
            assert(rest@ =~= buf@.skip(end as int));
            Some((msg, rest))
        },
    }
}

// ---------------------------------------------------------------------------
// The server's messages
// ---------------------------------------------------------------------------

/// The protocol that the server takes: h2 if it is offered, else the first.
pub open spec fn chosen_alpn(alpn: Seq<Seq<u8>>) -> Option<Seq<u8>> {
    if alpn.contains(ALPN_H2@) {
        Some(ALPN_H2@)
    } else if alpn.len() > 0 {
        Some(alpn[0])
    } else {
        None
    }
}

pub open spec fn encrypted_extensions_wire(alpn: Seq<Seq<u8>>) -> Seq<u8> {
    match chosen_alpn(alpn) {
        Some(name) => message_wire(
            8,
            run_wire(entry_wire(EXT_ALPN as nat, run_wire(be_bytes(name.len(), 1) + name))),
        ),
        None => message_wire(8, seq![0u8, 0]),
    }
}

fn alpn_choice(alpn: &[Vec<u8>]) -> (name: Option<Vec<u8>>)
    ensures
        match name {
            Some(name) => chosen_alpn(byte_views(alpn@)) == Some(name@),
            None => chosen_alpn(byte_views(alpn@)) is None,
        },
{
    let h2 = ALPN_H2;
    let ghost names = byte_views(alpn@);
    let mut i: usize = 0;
    while i < alpn.len()
        invariant
            i <= alpn.len(),
            h2@ == ALPN_H2@,
            names == byte_views(alpn@),
            forall|j: int| 0 <= j < i ==> names[j] != ALPN_H2@,
        decreases alpn.len() - i,
    {
        if same_bytes(&alpn[i], &h2) {
            assert(names[i as int] == ALPN_H2@);
            return Some(vstd::slice::slice_to_vec(&h2));
        }
        i = i + 1;
    }
    if alpn.len() > 0 {
        Some(vstd::slice::slice_to_vec(&alpn[0]))
    } else {
        None
    }
}

/// EncryptedExtensions: the client's protocol is echoed.
pub fn encrypted_extensions_msg(alpn: &[Vec<u8>]) -> (msg: Vec<u8>)
    ensures
        msg@ == encrypted_extensions_wire(byte_views(alpn@)),
{
    match alpn_choice(alpn) {
        None => {
            let none: [u8; 2] = [0, 0];
            assert(none@ =~= seq![0u8, 0]);
            handshake_msg(8, &none)
        },
        Some(name) => {
            let mut inner: Vec<u8> = Vec::new();
            push_be(&mut inner, name.len() as u64, 1);
            inner.extend_from_slice(&name);
            assert(inner@ =~= be_bytes(name@.len(), 1) + name@);
            let mut extension: Vec<u8> = Vec::new();
            push_entry(&mut extension, EXT_ALPN, &run_of(&inner));
            assert(extension@ =~= entry_wire(EXT_ALPN as nat, run_wire(inner@)));
            handshake_msg(8, &run_of(&extension))
        },
    }
}

/// A three-byte length, then the bytes.
pub open spec fn long_run_wire(data: Seq<u8>) -> Seq<u8> {
    be_bytes(data.len(), 3) + data
}

pub open spec fn certificate_wire(der: Seq<u8>) -> Seq<u8> {
    message_wire(11, seq![0u8] + long_run_wire(long_run_wire(der) + seq![0u8, 0]))
}

/// Certificate: one leaf without extensions.
pub fn certificate_msg(der: &[u8]) -> (msg: Vec<u8>)
    ensures
        msg@ == certificate_wire(der@),
{
    let mut entry: Vec<u8> = Vec::new();
    push_be(&mut entry, der.len() as u64, 3);
    entry.extend_from_slice(der);
    entry.push(0);
    entry.push(0);
    assert(entry@ =~= long_run_wire(der@) + seq![0u8, 0]);
    let mut body: Vec<u8> = Vec::new();
    body.push(0);
    push_be(&mut body, entry.len() as u64, 3);
    body.extend_from_slice(&entry);
    assert(body@ =~= seq![0u8] + long_run_wire(entry@));
    handshake_msg(11, &body)
}

/// `TLS 1.3, server CertificateVerify` and a zero.
pub const VERIFY_CONTEXT: [u8; 34] = [
    84, 76, 83, 32, 49, 46, 51, 44, 32, 115, 101, 114, 118, 101, 114, 32, 67, 101, 114, 116, 105, 102, 105, 99, 97, 116,
    101, 86, 101, 114, 105, 102, 121, 0,
];

/// What the server signs (RFC 8446, 4.4.3).
pub open spec fn signed_content(hash: Seq<u8>) -> Seq<u8> {
    Seq::new(64, |i: int| 0x20u8) + VERIFY_CONTEXT@ + hash
}

fn content_to_sign(hash: &[u8]) -> (out: Vec<u8>)
    ensures
        out@ == signed_content(hash@),
{
    let context = VERIFY_CONTEXT;
    let mut out: Vec<u8> = Vec::new();
    let mut i: usize = 0;
    while i < 64
        invariant
            i <= 64,
            out@ =~= Seq::new(i as nat, |i: int| 0x20u8),
        decreases 64 - i,
    {
        out.push(0x20);
        i = i + 1;
    }
    out.extend_from_slice(&context);
    out.extend_from_slice(hash);
    assert(out@ =~= signed_content(hash@));
    out
}

pub open spec fn certificate_verify_wire(signature: Seq<u8>) -> Seq<u8> {
    message_wire(15, seq![8u8, 7] + run_wire(signature))
}

/// CertificateVerify, signed with Ed25519.
pub fn certificate_verify_msg(leaf: &HmacLeaf, transcript_hash: &[u8]) -> (msg: Result<Vec<u8>, LeafError>)
    ensures
        match msg {
            Ok(msg) => leaf_signature(leaf.key@, signed_content(transcript_hash@)) matches Some(signature) && msg@
                == certificate_verify_wire(signature),
            Err(error) => leaf_signature(leaf.key@, signed_content(transcript_hash@)) is None && error
                == LeafError::Signature,
        },
{
    let content = content_to_sign(transcript_hash);
    match sign_hmac_leaf(leaf, &content) {
        Err(error) => Err(error),
        Ok(signature) => {
            let mut body: Vec<u8> = Vec::new();
            body.push(8);
            body.push(7);
            assert(body@ =~= seq![8u8, 7]);
            push_run(&mut body, &signature);
            Ok(handshake_msg(15, &body))
        },
    }
}

// ---------------------------------------------------------------------------
// The client's checks
// ---------------------------------------------------------------------------

/// The leaf in a Certificate message.
pub open spec fn certificate_in(msg: Seq<u8>) -> Result<Seq<u8>, CertificateFault> {
    match body_of(msg) {
        None => Err(CertificateFault::Truncated),
        Some(body) => if body.len() < 4 {
            Err(CertificateFault::NoList)
        } else {
            match run_end(body, 1, 3) {
                None => Err(CertificateFault::TruncatedList),
                Some(end) => {
                    let list = body.subrange(4, end);
                    if list.len() < 3 {
                        Err(CertificateFault::NoLeafLength)
                    } else {
                        match run_end(list, 0, 3) {
                            None => Err(CertificateFault::TruncatedLeaf),
                            Some(end) => Ok(list.subrange(3, end)),
                        }
                    }
                },
            }
        },
    }
}

pub fn parse_certificate(msg: &[u8]) -> (leaf: Result<Vec<u8>, CertificateFault>)
    requires
        msg@.len() >= 4,
    ensures
        match leaf {
            Ok(leaf) => certificate_in(msg@) == Ok::<Seq<u8>, CertificateFault>(leaf@),
            Err(fault) => certificate_in(msg@) == Err::<Seq<u8>, CertificateFault>(fault),
        },
{
    let body = match find_run_end(msg, 1, 3) {
        Some(end) => vstd::slice::slice_subrange(msg, 4, end),
        None => return Err(CertificateFault::Truncated),
    };
    if body.len() < 4 {
        return Err(CertificateFault::NoList);
    }
    let list = match find_run_end(body, 1, 3) {
        Some(end) => vstd::slice::slice_subrange(body, 4, end),
        None => return Err(CertificateFault::TruncatedList),
    };
    if list.len() < 3 {
        return Err(CertificateFault::NoLeafLength);
    }
    match find_run_end(list, 0, 3) {
        Some(end) => Ok(vstd::slice::slice_to_vec(vstd::slice::slice_subrange(list, 3, end))),
        None => Err(CertificateFault::TruncatedLeaf),
    }
}

pub open spec fn scheme_of(id: nat) -> Option<LeafScheme> {
    if id == 0x0403 {
        Some(LeafScheme::EcdsaP256Sha256)
    } else if id == 0x0503 {
        Some(LeafScheme::EcdsaP384Sha384)
    } else if id == 0x0804 {
        Some(LeafScheme::RsaPssSha256)
    } else if id == 0x0805 {
        Some(LeafScheme::RsaPssSha384)
    } else if id == 0x0807 {
        Some(LeafScheme::Ed25519)
    } else {
        None
    }
}

fn find_scheme(id: u16) -> (scheme: Option<LeafScheme>)
    ensures
        scheme == scheme_of(id as nat),
{
    match id {
        0x0403 => Some(LeafScheme::EcdsaP256Sha256),
        0x0503 => Some(LeafScheme::EcdsaP384Sha384),
        0x0804 => Some(LeafScheme::RsaPssSha256),
        0x0805 => Some(LeafScheme::RsaPssSha384),
        0x0807 => Some(LeafScheme::Ed25519),
        _ => None,
    }
}

/// What is wrong with a CertificateVerify message for a leaf and a transcript.
pub open spec fn verify_fault(leaf: Seq<u8>, msg: Seq<u8>, hash: Seq<u8>) -> Option<VerifyFault> {
    match body_of(msg) {
        None => Some(VerifyFault::Truncated),
        Some(body) => if body.len() < 2 {
            Some(VerifyFault::NoScheme)
        } else if body.len() < 4 {
            Some(VerifyFault::NoSignatureLength)
        } else {
            match run_end(body, 2, 2) {
                None => Some(VerifyFault::TruncatedSignature),
                Some(end) => if !webpki_parses(leaf) {
                    Some(VerifyFault::BadLeaf)
                } else {
                    match scheme_of(be_value(body.subrange(0, 2))) {
                        None => Some(VerifyFault::UnsupportedScheme(be_value(body.subrange(0, 2)) as u16)),
                        Some(scheme) => if webpki_fits(leaf, scheme, signed_content(hash), body.subrange(4, end)) {
                            None
                        } else {
                            Some(VerifyFault::BadSignature)
                        },
                    }
                },
            }
        },
    }
}

pub fn verify_certificate_verify(leaf: &[u8], msg: &[u8], transcript_hash: &[u8]) -> (out: Result<(), VerifyFault>)
    requires
        msg@.len() >= 4,
    ensures
        match out {
            Ok(_) => verify_fault(leaf@, msg@, transcript_hash@) is None,
            Err(fault) => verify_fault(leaf@, msg@, transcript_hash@) == Some(fault),
        },
{
    let body = match find_run_end(msg, 1, 3) {
        Some(end) => vstd::slice::slice_subrange(msg, 4, end),
        None => return Err(VerifyFault::Truncated),
    };
    if body.len() < 2 {
        return Err(VerifyFault::NoScheme);
    }
    if body.len() < 4 {
        return Err(VerifyFault::NoSignatureLength);
    }
    let scheme: u16 = read_u16(body, 0);
    let signature = match find_run_end(body, 2, 2) {
        Some(end) => vstd::slice::slice_subrange(body, 4, end),
        None => return Err(VerifyFault::TruncatedSignature),
    };
    if !parses_with_webpki(leaf) {
        return Err(VerifyFault::BadLeaf);
    }
    match find_scheme(scheme) {
        None => Err(VerifyFault::UnsupportedScheme(scheme)),
        Some(scheme) => {
            let content = content_to_sign(transcript_hash);
            if verify_with_webpki(leaf, scheme, &content, signature) {
                Ok(())
            } else {
                Err(VerifyFault::BadSignature)
            }
        },
    }
}

/// A Certificate message gives back the leaf that was put in it.
pub proof fn law_certificate_roundtrip(der: Seq<u8>)
    requires
        der.len() + 9 < 0x100_0000,
    ensures
        certificate_in(certificate_wire(der)) == Ok::<Seq<u8>, CertificateFault>(der),
{
    let entry = long_run_wire(der) + seq![0u8, 0];
    let body = seq![0u8] + long_run_wire(entry);
    crate::wire::lemma_be_range();
    crate::wire::lemma_be_bytes_len(der.len(), 3);
    crate::wire::lemma_be_bytes_len(entry.len(), 3);
    super::hello_laws::lemma_message_body(11, body);
    assert(body.subrange(1, 4) =~= be_bytes(entry.len(), 3));
    assert(body.subrange(4, 4 + entry.len() as int) =~= entry);
    super::hello_laws::lemma_run(body, 1, entry, 3);
    assert(entry.subrange(0, 3) =~= be_bytes(der.len(), 3));
    assert(entry.subrange(3, 3 + der.len() as int) =~= der);
    super::hello_laws::lemma_run(entry, 0, der, 3);
}

// ---------------------------------------------------------------------------
// Sealing messages
// ---------------------------------------------------------------------------

/// Whether a message is too long to be sealed.
pub open spec fn too_long(len: nat) -> bool {
    len >= AEAD_LIMIT || len + 17 > usize::MAX
}

/// Whether a record opens to handshake messages.
pub open spec fn record_opens(keys: super::suite::TrafficKeys, record: Seq<u8>, text: Seq<u8>) -> bool {
    super::suite::opened_record(keys, record.skip(5)) == Ok::<(u8, Seq<u8>), super::suite::RecordError>((0x16, text))
}

/// Encrypts a handshake message, padded to a record of the given size.
pub(super) fn seal_message(
    keys: &mut TrafficKeys,
    msg: &[u8],
    pad: Option<usize>,
) -> (record: Result<Vec<u8>, TlsError>)
    requires
        pad matches Some(target) ==> target <= AEAD_LIMIT,
    ensures
        match record {
            Ok(record) => !too_long(msg@.len()) && record@ == super::suite::record_of(*old(keys), 0x16, msg@, pad)
                && record_opens(*old(keys), record@, msg@) && *final(keys) == super::suite::counted(*old(keys)),
            Err(error) => too_long(msg@.len()) && error == TlsError::TooLong && *final(keys) == *old(keys),
        },
{
    if msg.len() as u64 >= AEAD_LIMIT || msg.len() > usize::MAX - 17 {
        return Err(TlsError::TooLong);
    }
    Ok(keys.encrypt_padded(0x16, msg, pad))
}

} // verus!
