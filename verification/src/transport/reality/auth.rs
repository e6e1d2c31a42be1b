//! The secret in the session id: who knows the server's public key can make
//! one that the server opens; everybody else sees random bytes.

use vstd::prelude::*;

use crate::crypto::{
    aes256_decrypt, aes256_encrypt, aes256_open, aes256_seal, sha256, sha256_digest, sha384, sha384_digest, sha512,
    sha512_digest, x25519_agree, x25519_point, x25519_public_key, x25519_secret, AEAD_LIMIT,
};
use crate::wire::{array_at, be_bytes, push_be};

verus! {

// ---------------------------------------------------------------------------
// HMAC and HKDF
// ---------------------------------------------------------------------------

/// `key`, filled up with zeros to a block, XORed with a byte.
pub open spec fn key_pad(key: Seq<u8>, block: nat, fill: u8) -> Seq<u8> {
    Seq::new(
        block,
        |i: int|
            (if i < key.len() {
                key[i]
            } else {
                0u8
            }) ^ fill,
    )
}

/// HMAC-SHA-256 (RFC 2104).
pub open spec fn hmac256(key: Seq<u8>, data: Seq<u8>) -> Seq<u8> {
    let k = if key.len() > 64 {
        sha256(key)
    } else {
        key
    };
    sha256(key_pad(k, 64, 0x5c) + sha256(key_pad(k, 64, 0x36) + data))
}

/// HMAC-SHA-384.
pub open spec fn hmac384(key: Seq<u8>, data: Seq<u8>) -> Seq<u8> {
    let k = if key.len() > 128 {
        sha384(key)
    } else {
        key
    };
    sha384(key_pad(k, 128, 0x5c) + sha384(key_pad(k, 128, 0x36) + data))
}

/// HMAC-SHA-512.
pub open spec fn hmac512(key: Seq<u8>, data: Seq<u8>) -> Seq<u8> {
    let k = if key.len() > 128 {
        sha512(key)
    } else {
        key
    };
    sha512(key_pad(k, 128, 0x5c) + sha512(key_pad(k, 128, 0x36) + data))
}

/// The HMAC that goes with a hash: SHA-384, or else SHA-256.
pub open spec fn hmac_of(sha384: bool, key: Seq<u8>, data: Seq<u8>) -> Seq<u8> {
    if sha384 {
        hmac384(key, data)
    } else {
        hmac256(key, data)
    }
}

pub open spec fn hash_size(sha384: bool) -> nat {
    if sha384 {
        48
    } else {
        32
    }
}

fn padded_key(key: &[u8], block: usize, fill: u8) -> (out: Vec<u8>)
    requires
        key@.len() <= block,
    ensures
        out@ == key_pad(key@, block as nat, fill),
{
    let mut out: Vec<u8> = Vec::new();
    let mut i: usize = 0;
    while i < block
        invariant
            i <= block,
            key@.len() <= block,
            out@ == key_pad(key@, i as nat, fill),
        decreases block - i,
    {
        let byte: u8 = if i < key.len() {
            key[i]
        } else {
            0
        };
        out.push(byte ^ fill);
        i = i + 1;
        assert(out@ =~= key_pad(key@, i as nat, fill));
    }
    out
}

pub fn hmac_sha256(key: &[u8], data: &[u8]) -> (out: [u8; 32])
    ensures
        out@ == hmac256(key@, data@),
{
    let k = if key.len() > 64 {
        let digest = sha256_digest(key);
        vstd::slice::slice_to_vec(&digest)
    } else {
        vstd::slice::slice_to_vec(key)
    };
    let mut inner = padded_key(&k, 64, 0x36);
    inner.extend_from_slice(data);
    assert(inner@ =~= key_pad(k@, 64, 0x36) + data@);
    let digest = sha256_digest(&inner);
    let mut outer = padded_key(&k, 64, 0x5c);
    outer.extend_from_slice(&digest);
    assert(outer@ =~= key_pad(k@, 64, 0x5c) + digest@);
    sha256_digest(&outer)
}

pub fn hmac_sha384(key: &[u8], data: &[u8]) -> (out: [u8; 48])
    ensures
        out@ == hmac384(key@, data@),
{
    let k = if key.len() > 128 {
        let digest = sha384_digest(key);
        vstd::slice::slice_to_vec(&digest)
    } else {
        vstd::slice::slice_to_vec(key)
    };
    let mut inner = padded_key(&k, 128, 0x36);
    inner.extend_from_slice(data);
    assert(inner@ =~= key_pad(k@, 128, 0x36) + data@);
    let digest = sha384_digest(&inner);
    let mut outer = padded_key(&k, 128, 0x5c);
    outer.extend_from_slice(&digest);
    assert(outer@ =~= key_pad(k@, 128, 0x5c) + digest@);
    sha384_digest(&outer)
}

pub fn hmac_sha512(key: &[u8], data: &[u8]) -> (out: [u8; 64])
    ensures
        out@ == hmac512(key@, data@),
{
    let k = if key.len() > 128 {
        let digest = sha512_digest(key);
        vstd::slice::slice_to_vec(&digest)
    } else {
        vstd::slice::slice_to_vec(key)
    };
    let mut inner = padded_key(&k, 128, 0x36);
    inner.extend_from_slice(data);
    assert(inner@ =~= key_pad(k@, 128, 0x36) + data@);
    let digest = sha512_digest(&inner);
    let mut outer = padded_key(&k, 128, 0x5c);
    outer.extend_from_slice(&digest);
    assert(outer@ =~= key_pad(k@, 128, 0x5c) + digest@);
    sha512_digest(&outer)
}

pub fn hmac_vec(sha384: bool, key: &[u8], data: &[u8]) -> (out: Vec<u8>)
    ensures
        out@ == hmac_of(sha384, key@, data@),
        out@.len() == hash_size(sha384),
{
    if sha384 {
        let mac = hmac_sha384(key, data);
        vstd::slice::slice_to_vec(&mac)
    } else {
        let mac = hmac_sha256(key, data);
        vstd::slice::slice_to_vec(&mac)
    }
}

/// The `n`th block of HKDF-Expand (RFC 5869), from 1.
pub open spec fn expand_block(sha384: bool, prk: Seq<u8>, info: Seq<u8>, n: nat) -> Seq<u8>
    decreases n,
{
    if n == 0 {
        Seq::empty()
    } else {
        hmac_of(sha384, prk, expand_block(sha384, prk, info, (n - 1) as nat) + info + seq![n as u8])
    }
}

/// The first `n` blocks.
pub open spec fn expand_blocks(sha384: bool, prk: Seq<u8>, info: Seq<u8>, n: nat) -> Seq<u8>
    decreases n,
{
    if n == 0 {
        Seq::empty()
    } else {
        expand_blocks(sha384, prk, info, (n - 1) as nat) + expand_block(sha384, prk, info, n)
    }
}

/// HKDF-Expand: `len` bytes off the front of the blocks.
pub open spec fn expanded(sha384: bool, prk: Seq<u8>, info: Seq<u8>, len: nat) -> Seq<u8> {
    let size = hash_size(sha384);
    expand_blocks(sha384, prk, info, ((len + size - 1) / (size as int)) as nat).take(len as int)
}

/// HKDF-Expand, for at most 254 blocks.
pub fn hkdf_expand_vec(sha384: bool, prk: &[u8], info: &[u8], len: usize) -> (okm: Vec<u8>)
    requires
        len <= 254 * hash_size(sha384),
    ensures
        okm@ == expanded(sha384, prk@, info@, len as nat),
        okm@.len() == len,
{
    let size: usize = if sha384 {
        48
    } else {
        32
    };
    let mut all: Vec<u8> = Vec::new();
    let mut previous: Vec<u8> = Vec::new();
    let mut counter: u8 = 0;
    while all.len() < len
        invariant
            size == hash_size(sha384),
            len <= 254 * size,
            all@ == expand_blocks(sha384, prk@, info@, counter as nat),
            all@.len() == counter * size,
            previous@ == expand_block(sha384, prk@, info@, counter as nat),
            counter <= 254,
            counter > 0 ==> (counter - 1) * size < len,
            size == 32 || size == 48,
        decreases 254 - counter,
    {
        let mut input: Vec<u8> = Vec::new();
        input.append(&mut previous);
        input.extend_from_slice(info);
        input.push(counter + 1);
        proof {
            assert(input@ =~= expand_block(sha384, prk@, info@, counter as nat) + info@ + seq![(counter + 1) as u8]);
            assert(counter < 254) by (nonlinear_arith)
                requires
                    counter * size < len,
                    len <= 254 * size,
                    size > 0,
            ;
            assert((counter + 1) * size == counter * size + size) by (nonlinear_arith);
        }
        previous = hmac_vec(sha384, prk, &input);
        let ghost before = all@;
        all.extend_from_slice(&previous);
        assert(all@ =~= before + previous@);
        counter = counter + 1;
    }
    proof {
        let n = ((len + size - 1) / (size as int)) as nat;
        if counter == 0 {
            assert(len == 0);
            assert(n == 0);
        } else {
            assert(n == counter) by (nonlinear_arith)
                requires
                    (counter - 1) * size < len <= counter * size,
                    n == (len + size - 1) / (size as int),
                    size > 0,
                    counter > 0,
            ;
        }
    }
    let okm = vstd::slice::slice_subrange(&all, 0, len);
    assert(okm@ =~= expanded(sha384, prk@, info@, len as nat));
    vstd::slice::slice_to_vec(okm)
}

pub fn hkdf_expand(prk: &[u8], info: &[u8], len: usize) -> (okm: Vec<u8>)
    requires
        len <= 254 * 32,
    ensures
        okm@ == expanded(false, prk@, info@, len as nat),
        okm@.len() == len,
{
    hkdf_expand_vec(false, prk, info, len)
}

/// HKDF-SHA-256: extract, then expand.
pub open spec fn hkdf256(ikm: Seq<u8>, salt: Seq<u8>, info: Seq<u8>, len: nat) -> Seq<u8> {
    expanded(false, hmac256(salt, ikm), info, len)
}

pub fn hkdf_sha256(ikm: &[u8], salt: &[u8], info: &[u8], len: usize) -> (okm: Vec<u8>)
    requires
        len <= 254 * 32,
    ensures
        okm@ == hkdf256(ikm@, salt@, info@, len as nat),
        okm@.len() == len,
{
    let prk = hmac_sha256(salt, ikm);
    hkdf_expand(&prk, info, len)
}

/// Whether two runs of bytes are the same, looking at every byte.
pub fn ct_eq(a: &[u8], b: &[u8]) -> (same: bool)
    ensures
        same == (a@ == b@),
{
    if a.len() != b.len() {
        return false;
    }
    let mut acc: u8 = 0;
    let mut i: usize = 0;
    while i < a.len()
        invariant
            i <= a.len(),
            a@.len() == b@.len(),
            (acc == 0) == (forall|j: int| 0 <= j < i ==> a@[j] == b@[j]),
        decreases a.len() - i,
    {
        let x: u8 = a[i];
        let y: u8 = b[i];
        assert((acc | (x ^ y)) == 0 <==> acc == 0 && x == y) by (bit_vector);
        acc = acc | (x ^ y);
        i = i + 1;
    }
    assert(acc == 0 ==> a@ =~= b@);
    acc == 0
}

// ---------------------------------------------------------------------------
// Keys
// ---------------------------------------------------------------------------

pub fn x25519_public(private: &[u8; 32]) -> (public: [u8; 32])
    ensures
        public@ == x25519_point(private@),
{
    x25519_public_key(private)
}

pub fn x25519_shared(private: &[u8; 32], peer: &[u8; 32]) -> (shared: [u8; 32])
    ensures
        shared@ == x25519_secret(private@, peer@),
        forall|other: Seq<u8>|
            other.len() == 32 && #[trigger] x25519_point(other) == peer@ ==> x25519_secret(other, x25519_point(private@))
                == shared@,
{
    x25519_agree(private, peer)
}

/// `REALITY`.
pub const REALITY_INFO: [u8; 7] = [82, 69, 65, 76, 73, 84, 89];

/// The key that both sides derive from their shared secret and the random
/// bytes of the ClientHello.
pub open spec fn auth_key_of(shared: Seq<u8>, hello_random: Seq<u8>) -> Seq<u8> {
    hkdf256(shared, hello_random.take(20), REALITY_INFO@, 32)
}

pub fn reality_auth_key(shared: &[u8; 32], hello_random: &[u8; 32]) -> (key: [u8; 32])
    ensures
        key@ == auth_key_of(shared@, hello_random@),
{
    let salt = vstd::slice::slice_subrange(hello_random, 0, 20);
    assert(salt@ =~= hello_random@.take(20));
    let info = REALITY_INFO;
    let okm = hkdf_sha256(shared, salt, &info, 32);
    let key: [u8; 32] = array_at(&okm, 0);
    assert(key@ =~= okm@);
    key
}

// ---------------------------------------------------------------------------
// The session id
// ---------------------------------------------------------------------------

/// version, zero, time, short id.
pub open spec fn session_id_wire(version: Seq<u8>, unix_secs: u32, short_id: Seq<u8>) -> Seq<u8> {
    version.push(0) + be_bytes(unix_secs as nat, 4) + short_id
}

pub fn session_id_plain(version: [u8; 3], unix_secs: u32, short_id: [u8; 8]) -> (plain: [u8; 16])
    ensures
        plain@ == session_id_wire(version@, unix_secs, short_id@),
{
    let mut out: Vec<u8> = Vec::new();
    out.extend_from_slice(&version);
    out.push(0);
    push_be(&mut out, unix_secs as u64, 4);
    out.extend_from_slice(&short_id);
    proof {
        crate::wire::lemma_be_bytes_len(unix_secs as nat, 4);
        assert(out@ =~= session_id_wire(version@, unix_secs, short_id@));
    }
    let plain: [u8; 16] = array_at(&out, 0);
    assert(plain@ =~= out@);
    plain
}

/// Where the session id stands in a ClientHello handshake message.
pub const SESSION_ID_OFFSET: usize = 39;

pub const SESSION_ID_LEN: usize = 32;

/// A handshake message with zeros for its session id.
pub open spec fn blanked(handshake: Seq<u8>) -> Seq<u8> {
    Seq::new(
        handshake.len(),
        |i: int|
            if SESSION_ID_OFFSET <= i < SESSION_ID_OFFSET + SESSION_ID_LEN {
                0u8
            } else {
                handshake[i]
            },
    )
}

fn blank(handshake: &[u8]) -> (out: Vec<u8>)
    ensures
        out@ == blanked(handshake@),
{
    let mut out: Vec<u8> = Vec::new();
    let mut i: usize = 0;
    while i < handshake.len()
        invariant
            i <= handshake.len(),
            out@.len() == i,
            forall|j: int| 0 <= j < i ==> #[trigger] out@[j] == blanked(handshake@)[j],
        decreases handshake.len() - i,
    {
        if SESSION_ID_OFFSET <= i && i < SESSION_ID_OFFSET + SESSION_ID_LEN {
            out.push(0);
        } else {
            out.push(handshake[i]);
        }
        i = i + 1;
    }
    assert(out@ =~= blanked(handshake@));
    out
}

/// What the server reads from a session id.
pub open spec fn opened(
    server_private: Seq<u8>,
    client_public: Seq<u8>,
    hello_random: Seq<u8>,
    sealed: Seq<u8>,
    handshake: Seq<u8>,
) -> Option<Seq<u8>> {
    if sealed.len() != SESSION_ID_LEN || handshake.len() < SESSION_ID_OFFSET + SESSION_ID_LEN {
        None
    } else {
        aes256_open(
            auth_key_of(x25519_secret(server_private, client_public), hello_random),
            hello_random.skip(20),
            blanked(handshake),
            sealed,
        )
    }
}

/// A handshake message with another session id.
pub open spec fn with_session_id(handshake: Seq<u8>, id: Seq<u8>) -> Seq<u8> {
    handshake.take(SESSION_ID_OFFSET as int) + id + handshake.skip(SESSION_ID_OFFSET + SESSION_ID_LEN)
}

/// Whether a handshake message is long enough for a session id and holds
/// zeros in its place.
pub open spec fn is_blank(handshake: Seq<u8>) -> bool {
    &&& handshake.len() >= SESSION_ID_OFFSET + SESSION_ID_LEN
    &&& forall|i: int| SESSION_ID_OFFSET <= i < SESSION_ID_OFFSET + SESSION_ID_LEN ==> (#[trigger] handshake[i]) == 0
}

/// Blanking undoes putting a session id in.
pub proof fn law_blanking_undoes(handshake: Seq<u8>, id: Seq<u8>)
    requires
        is_blank(handshake),
        id.len() == SESSION_ID_LEN,
    ensures
        blanked(with_session_id(handshake, id)) == handshake,
        with_session_id(handshake, id).len() == handshake.len(),
{
    assert(blanked(with_session_id(handshake, id)) =~= handshake);
}

/// Encrypts the session id. `handshake` holds zeros in its place.
///
/// Whoever has the private key behind `server_public` opens the result, with
/// the client's public key and any handshake message that differs from this
/// one in its session id alone, to `plain` again: whatever 32 bytes stand
/// there.
pub fn seal_session_id(
    client_private: &[u8; 32],
    server_public: &[u8; 32],
    hello_random: &[u8; 32],
    plain: &[u8; 16],
    handshake: &[u8],
) -> (sealed: [u8; 32])
    requires
        handshake@.len() <= AEAD_LIMIT,
    ensures
        sealed@ == aes256_seal(
            auth_key_of(x25519_secret(client_private@, server_public@), hello_random@),
            hello_random@.skip(20),
            handshake@,
            plain@,
        ),
        forall|server_private: Seq<u8>, sent: Seq<u8>|
            server_private.len() == 32 && x25519_point(server_private) == server_public@ && sent.len()
                >= SESSION_ID_OFFSET + SESSION_ID_LEN && blanked(sent) == handshake@ ==> #[trigger] opened(
                server_private,
                x25519_point(client_private@),
                hello_random@,
                sealed@,
                sent,
            ) == Some(plain@),
        is_blank(handshake@) ==> forall|server_private: Seq<u8>, id: Seq<u8>|
            server_private.len() == 32 && x25519_point(server_private) == server_public@ && id.len() == SESSION_ID_LEN
                ==> #[trigger] opened(
                server_private,
                x25519_point(client_private@),
                hello_random@,
                sealed@,
                with_session_id(handshake@, id),
            ) == Some(plain@),
{
    let shared = x25519_shared(client_private, server_public);
    let key = reality_auth_key(&shared, hello_random);
    let nonce: [u8; 12] = array_at(hello_random, 20);
    assert(nonce@ =~= hello_random@.skip(20));
    let sealed = aes_gcm_seal(&key, &nonce, handshake, plain);
    proof {
        if is_blank(handshake@) {
            assert forall|id: Seq<u8>| id.len() == SESSION_ID_LEN implies blanked(
                #[trigger] with_session_id(handshake@, id),
            ) == handshake@ && with_session_id(handshake@, id).len() == handshake@.len() by {
                law_blanking_undoes(handshake@, id);
            }
        }
    }
    sealed
}

pub fn open_session_id(
    server_private: &[u8; 32],
    client_public: &[u8; 32],
    hello_random: &[u8; 32],
    sealed: &[u8],
    handshake: &[u8],
) -> (plain: Option<[u8; 16]>)
    ensures
        match plain {
            Some(plain) => opened(server_private@, client_public@, hello_random@, sealed@, handshake@) == Some(plain@),
            None => opened(server_private@, client_public@, hello_random@, sealed@, handshake@) is None,
        },
        sealed@.len() != SESSION_ID_LEN || handshake@.len() < SESSION_ID_OFFSET + SESSION_ID_LEN ==> plain is None,
{
    if sealed.len() != SESSION_ID_LEN {
        return None;
    }
    if handshake.len() < SESSION_ID_OFFSET + SESSION_ID_LEN {
        return None;
    }
    let aad = blank(handshake);
    let shared = x25519_shared(server_private, client_public);
    let key = reality_auth_key(&shared, hello_random);
    let nonce: [u8; 12] = array_at(hello_random, 20);
    assert(nonce@ =~= hello_random@.skip(20));
    match aes256_decrypt(&key, &nonce, &aad, sealed) {
        Some(message) => {
            let plain: [u8; 16] = array_at(&message, 0);
            assert(plain@ =~= message@);
            Some(plain)
        },
        None => None,
    }
}

pub fn aes_gcm_seal(key: &[u8; 32], nonce: &[u8; 12], aad: &[u8], plain: &[u8; 16]) -> (sealed: [u8; 32])
    requires
        aad@.len() <= AEAD_LIMIT,
    ensures
        sealed@ == aes256_seal(key@, nonce@, aad@, plain@),
        aes256_open(key@, nonce@, aad@, sealed@) == Some(plain@),
{
    let out = aes256_encrypt(key, nonce, aad, plain);
    let sealed: [u8; 32] = array_at(&out, 0);
    assert(sealed@ =~= out@);
    sealed
}

} // verus!
