//! TLS 1.3 cipher suites: the key schedule and the record protection.

use vstd::prelude::*;

use super::auth::{expanded, hash_size, hkdf_expand_vec, hmac_of, hmac_vec};
use crate::crypto::{
    aes128_decrypt, aes128_encrypt, aes128_open, aes128_seal, aes256_decrypt, aes256_encrypt, aes256_open, aes256_seal,
    chacha_decrypt, chacha_encrypt, chacha_open, chacha_seal, sha256, sha256_digest, sha384, sha384_digest, AEAD_LIMIT,
    CHACHA_LIMIT,
    AEAD_TAG,
};
use crate::wire::{array_at, be_bytes, lemma_be_bytes_len, lemma_be_range, lemma_value_of_bytes, push_be};

verus! {

pub const TLS_AES_128_GCM_SHA256: u16 = 0x1301;

pub const TLS_AES_256_GCM_SHA384: u16 = 0x1302;

pub const TLS_CHACHA20_POLY1305_SHA256: u16 = 0x1303;

#[derive(Clone, Copy, Debug, PartialEq, Eq, Structural)]
pub enum Suite {
    Aes128GcmSha256,
    Aes256GcmSha384,
    ChaCha20Poly1305Sha256,
}

impl Suite {
    pub open spec fn of_id(id: nat) -> Option<Suite> {
        if id == TLS_AES_128_GCM_SHA256 {
            Some(Suite::Aes128GcmSha256)
        } else if id == TLS_AES_256_GCM_SHA384 {
            Some(Suite::Aes256GcmSha384)
        } else if id == TLS_CHACHA20_POLY1305_SHA256 {
            Some(Suite::ChaCha20Poly1305Sha256)
        } else {
            None
        }
    }

    pub open spec fn wide_hash(self) -> bool {
        self == Suite::Aes256GcmSha384
    }

    pub open spec fn key_size(self) -> nat {
        if self == Suite::Aes128GcmSha256 {
            16
        } else {
            32
        }
    }

    /// The hash that goes with the suite.
    pub open spec fn digest(self, data: Seq<u8>) -> Seq<u8> {
        if self.wide_hash() {
            sha384(data)
        } else {
            sha256(data)
        }
    }

    pub fn from_id(id: u16) -> (suite: Option<Self>)
        ensures
            suite == Suite::of_id(id as nat),
    {
        if id == TLS_AES_128_GCM_SHA256 {
            Some(Suite::Aes128GcmSha256)
        } else if id == TLS_AES_256_GCM_SHA384 {
            Some(Suite::Aes256GcmSha384)
        } else if id == TLS_CHACHA20_POLY1305_SHA256 {
            Some(Suite::ChaCha20Poly1305Sha256)
        } else {
            None
        }
    }

    pub fn hash_len(self) -> (len: usize)
        ensures
            len == hash_size(self.wide_hash()),
    {
        if self.sha384() {
            48
        } else {
            32
        }
    }

    pub fn key_len(self) -> (len: usize)
        ensures
            len == self.key_size(),
    {
        match self {
            Suite::Aes128GcmSha256 => 16,
            _ => 32,
        }
    }

    fn sha384(self) -> (yes: bool)
        ensures
            yes == self.wide_hash(),
    {
        match self {
            Suite::Aes256GcmSha384 => true,
            _ => false,
        }
    }
}

fn digest_of(suite: Suite, data: &[u8]) -> (hash: Vec<u8>)
    ensures
        hash@ == suite.digest(data@),
        hash@.len() == hash_size(suite.wide_hash()),
{
    if suite.sha384() {
        let hash = sha384_digest(data);
        vstd::slice::slice_to_vec(&hash)
    } else {
        let hash = sha256_digest(data);
        vstd::slice::slice_to_vec(&hash)
    }
}

/// What has been said in a handshake; both sides hash it.
pub struct Transcript {
    suite: Suite,
    said: Vec<u8>,
}

impl Transcript {
    pub closed spec fn suite(&self) -> Suite {
        self.suite
    }

    pub closed spec fn said(&self) -> Seq<u8> {
        self.said@
    }

    pub fn new(suite: Suite) -> (transcript: Self)
        ensures
            transcript.suite() == suite,
            transcript.said() == Seq::<u8>::empty(),
    {
        Transcript { suite, said: Vec::new() }
    }

    pub fn update(&mut self, handshake: &[u8])
        ensures
            final(self).suite() == old(self).suite(),
            final(self).said() == old(self).said() + handshake@,
    {
        self.said.extend_from_slice(handshake);
        assert(self.said@ =~= old(self).said@ + handshake@);
    }

    pub fn hash(&self) -> (hash: Vec<u8>)
        ensures
            hash@ == self.suite().digest(self.said()),
            hash@.len() == hash_size(self.suite().wide_hash()),
    {
        digest_of(self.suite, &self.said)
    }
}

// ---------------------------------------------------------------------------
// The key schedule
// ---------------------------------------------------------------------------

/// `tls13 `.
pub const LABEL_PREFIX: [u8; 6] = [116, 108, 115, 49, 51, 32];

/// `derived`.
pub const LABEL_DERIVED: [u8; 7] = [100, 101, 114, 105, 118, 101, 100];

/// `c hs traffic`.
pub const LABEL_CLIENT_HANDSHAKE: [u8; 12] = [99, 32, 104, 115, 32, 116, 114, 97, 102, 102, 105, 99];

/// `s hs traffic`.
pub const LABEL_SERVER_HANDSHAKE: [u8; 12] = [115, 32, 104, 115, 32, 116, 114, 97, 102, 102, 105, 99];

/// `c ap traffic`.
pub const LABEL_CLIENT_APPLICATION: [u8; 12] = [99, 32, 97, 112, 32, 116, 114, 97, 102, 102, 105, 99];

/// `s ap traffic`.
pub const LABEL_SERVER_APPLICATION: [u8; 12] = [115, 32, 97, 112, 32, 116, 114, 97, 102, 102, 105, 99];

/// `key`.
pub const LABEL_KEY: [u8; 3] = [107, 101, 121];

/// `iv`.
pub const LABEL_IV: [u8; 2] = [105, 118];

/// `finished`.
pub const LABEL_FINISHED: [u8; 8] = [102, 105, 110, 105, 115, 104, 101, 100];

/// The structure that HKDF-Expand-Label expands with (RFC 8446, 7.1).
pub open spec fn label_info(label: Seq<u8>, context: Seq<u8>, len: nat) -> Seq<u8> {
    be_bytes(len, 2) + be_bytes(6 + label.len(), 1) + LABEL_PREFIX@ + label + be_bytes(context.len(), 1) + context
}

pub open spec fn labelled(suite: Suite, secret: Seq<u8>, label: Seq<u8>, context: Seq<u8>, len: nat) -> Seq<u8> {
    expanded(suite.wide_hash(), secret, label_info(label, context, len), len)
}

fn hkdf_expand_label(suite: Suite, secret: &[u8], label: &[u8], context: &[u8], len: usize) -> (out: Vec<u8>)
    requires
        len <= 254 * 32,
        label@.len() <= 249,
    ensures
        out@ == labelled(suite, secret@, label@, context@, len as nat),
        out@.len() == len,
{
    let prefix = LABEL_PREFIX;
    let mut info: Vec<u8> = Vec::new();
    push_be(&mut info, len as u64, 2);
    push_be(&mut info, (6 + label.len()) as u64, 1);
    info.extend_from_slice(&prefix);
    info.extend_from_slice(label);
    push_be(&mut info, context.len() as u64, 1);
    info.extend_from_slice(context);
    assert(info@ =~= label_info(label@, context@, len as nat));
    hkdf_expand_vec(suite.sha384(), secret, &info, len)
}

pub open spec fn derived_secret(suite: Suite, secret: Seq<u8>, label: Seq<u8>, hash: Seq<u8>) -> Seq<u8> {
    labelled(suite, secret, label, hash, hash_size(suite.wide_hash()))
}

fn derive_secret(suite: Suite, secret: &[u8], label: &[u8], hash: &[u8]) -> (out: Vec<u8>)
    requires
        label@.len() <= 249,
    ensures
        out@ == derived_secret(suite, secret@, label@, hash@),
        out@.len() == hash_size(suite.wide_hash()),
{
    hkdf_expand_label(suite, secret, label, hash, suite.hash_len())
}

pub open spec fn zeros(n: nat) -> Seq<u8> {
    Seq::new(n, |i: int| 0u8)
}

fn zero_bytes(n: usize) -> (out: Vec<u8>)
    ensures
        out@ == zeros(n as nat),
{
    let mut out: Vec<u8> = Vec::new();
    let mut i: usize = 0;
    while i < n
        invariant
            i <= n,
            out@ == zeros(i as nat),
        decreases n - i,
    {
        out.push(0);
        i = i + 1;
        assert(out@ =~= zeros(i as nat));
    }
    out
}

/// What follows a secret in the schedule, for `input`.
pub open spec fn next_secret(suite: Suite, secret: Seq<u8>, input: Seq<u8>) -> Seq<u8> {
    hmac_of(
        suite.wide_hash(),
        derived_secret(suite, secret, LABEL_DERIVED@, suite.digest(Seq::empty())),
        input,
    )
}

/// The handshake secret for a shared key, without a pre-shared one.
pub open spec fn handshake_secret_of(suite: Suite, shared: Seq<u8>) -> Seq<u8> {
    let none = zeros(hash_size(suite.wide_hash()));
    next_secret(suite, hmac_of(suite.wide_hash(), none, none), shared)
}

pub open spec fn master_secret_of(suite: Suite, handshake_secret: Seq<u8>) -> Seq<u8> {
    next_secret(suite, handshake_secret, zeros(hash_size(suite.wide_hash())))
}

fn follow_secret(suite: Suite, secret: &[u8], input: &[u8]) -> (next: Vec<u8>)
    ensures
        next@ == next_secret(suite, secret@, input@),
        next@.len() == hash_size(suite.wide_hash()),
{
    let nothing: [u8; 0] = [];
    assert(nothing@ =~= Seq::empty());
    let empty = digest_of(suite, &nothing);
    let label = LABEL_DERIVED;
    let derived = derive_secret(suite, secret, &label, &empty);
    hmac_vec(suite.sha384(), &derived, input)
}

/// A key of the cipher that a suite has.
#[derive(Clone, Copy)]
pub enum CipherKey {
    Aes128([u8; 16]),
    Aes256([u8; 32]),
    ChaCha20([u8; 32]),
}

impl CipherKey {
    pub open spec fn suite(self) -> Suite {
        match self {
            CipherKey::Aes128(_) => Suite::Aes128GcmSha256,
            CipherKey::Aes256(_) => Suite::Aes256GcmSha384,
            CipherKey::ChaCha20(_) => Suite::ChaCha20Poly1305Sha256,
        }
    }

    pub open spec fn bytes(self) -> Seq<u8> {
        match self {
            CipherKey::Aes128(key) => key@,
            CipherKey::Aes256(key) => key@,
            CipherKey::ChaCha20(key) => key@,
        }
    }

    /// How long a message it takes.
    pub open spec fn limit(self) -> nat {
        match self {
            CipherKey::ChaCha20(_) => CHACHA_LIMIT as nat,
            _ => AEAD_LIMIT as nat,
        }
    }
}

/// The keys of one direction, and how many records went that way.
#[derive(Clone, Copy)]
pub struct TrafficKeys {
    pub key: CipherKey,
    pub iv: [u8; 12],
    pub seq: u64,
}

/// Whether these are the keys for a secret, before the first record.
pub open spec fn keys_for(keys: TrafficKeys, suite: Suite, secret: Seq<u8>) -> bool {
    &&& keys.key.suite() == suite
    &&& keys.key.bytes() == labelled(suite, secret, LABEL_KEY@, Seq::empty(), suite.key_size())
    &&& keys.iv@ == labelled(suite, secret, LABEL_IV@, Seq::empty(), 12)
    &&& keys.seq == 0
}

pub fn traffic_keys(suite: Suite, secret: &[u8]) -> (keys: TrafficKeys)
    ensures
        keys_for(keys, suite, secret@),
{
    let nothing: [u8; 0] = [];
    assert(nothing@ =~= Seq::empty());
    let key_label = LABEL_KEY;
    let iv_label = LABEL_IV;
    let bytes = hkdf_expand_label(suite, secret, &key_label, &nothing, suite.key_len());
    let iv_bytes = hkdf_expand_label(suite, secret, &iv_label, &nothing, 12);
    let iv: [u8; 12] = array_at(&iv_bytes, 0);
    assert(iv@ =~= iv_bytes@);
    let key = match suite {
        Suite::Aes128GcmSha256 => {
            let key: [u8; 16] = array_at(&bytes, 0);
            assert(key@ =~= bytes@);
            CipherKey::Aes128(key)
        },
        Suite::Aes256GcmSha384 => {
            let key: [u8; 32] = array_at(&bytes, 0);
            assert(key@ =~= bytes@);
            CipherKey::Aes256(key)
        },
        Suite::ChaCha20Poly1305Sha256 => {
            let key: [u8; 32] = array_at(&bytes, 0);
            assert(key@ =~= bytes@);
            CipherKey::ChaCha20(key)
        },
    };
    TrafficKeys { key, iv, seq: 0 }
}

/// Handshake keys of one side, with the secret behind them.
pub struct HsKeys {
    pub keys: TrafficKeys,
    pub secret: Vec<u8>,
}

/// The client's handshake keys, the server's, and the secret of both.
pub fn handshake_traffic_keys(suite: Suite, shared: &[u8; 32], hello_hash: &[u8]) -> (out: (HsKeys, HsKeys, Vec<u8>))
    ensures
        ({
            let (client, server, secret) = out;
            &&& secret@ == handshake_secret_of(suite, shared@)
            &&& client.secret@ == derived_secret(suite, secret@, LABEL_CLIENT_HANDSHAKE@, hello_hash@)
            &&& server.secret@ == derived_secret(suite, secret@, LABEL_SERVER_HANDSHAKE@, hello_hash@)
            &&& keys_for(client.keys, suite, client.secret@)
            &&& keys_for(server.keys, suite, server.secret@)
            &&& secret@.len() == hash_size(suite.wide_hash())
            &&& client.secret@.len() == hash_size(suite.wide_hash())
            &&& server.secret@.len() == hash_size(suite.wide_hash())
        }),
{
    let none = zero_bytes(suite.hash_len());
    let early = hmac_vec(suite.sha384(), &none, &none);
    let secret = follow_secret(suite, &early, shared);
    let client_label = LABEL_CLIENT_HANDSHAKE;
    let server_label = LABEL_SERVER_HANDSHAKE;
    let client_secret = derive_secret(suite, &secret, &client_label, hello_hash);
    let server_secret = derive_secret(suite, &secret, &server_label, hello_hash);
    let client = HsKeys { keys: traffic_keys(suite, &client_secret), secret: client_secret };
    let server = HsKeys { keys: traffic_keys(suite, &server_secret), secret: server_secret };
    (client, server, secret)
}

/// The secrets of the application keys: the client's, then the server's.
pub open spec fn application_secrets(suite: Suite, handshake_secret: Seq<u8>, hash: Seq<u8>) -> (Seq<u8>, Seq<u8>) {
    let master = master_secret_of(suite, handshake_secret);
    (
        derived_secret(suite, master, LABEL_CLIENT_APPLICATION@, hash),
        derived_secret(suite, master, LABEL_SERVER_APPLICATION@, hash),
    )
}

/// The client's application keys, then the server's.
pub fn application_traffic_keys(suite: Suite, handshake_secret: &[u8], hash: &[u8]) -> (out: (TrafficKeys, TrafficKeys))
    ensures
        keys_for(out.0, suite, application_secrets(suite, handshake_secret@, hash@).0),
        keys_for(out.1, suite, application_secrets(suite, handshake_secret@, hash@).1),
{
    let none = zero_bytes(suite.hash_len());
    let master = follow_secret(suite, handshake_secret, &none);
    let client_label = LABEL_CLIENT_APPLICATION;
    let server_label = LABEL_SERVER_APPLICATION;
    let client = derive_secret(suite, &master, &client_label, hash);
    let server = derive_secret(suite, &master, &server_label, hash);
    (traffic_keys(suite, &client), traffic_keys(suite, &server))
}

/// What a side's Finished message holds.
pub open spec fn finished_mac(suite: Suite, base_secret: Seq<u8>, hash: Seq<u8>) -> Seq<u8> {
    hmac_of(
        suite.wide_hash(),
        labelled(suite, base_secret, LABEL_FINISHED@, Seq::empty(), hash_size(suite.wide_hash())),
        hash,
    )
}

pub fn finished_verify(suite: Suite, base_secret: &[u8], transcript_hash: &[u8]) -> (mac: Vec<u8>)
    ensures
        mac@ == finished_mac(suite, base_secret@, transcript_hash@),
        mac@.len() == hash_size(suite.wide_hash()),
{
    let nothing: [u8; 0] = [];
    assert(nothing@ =~= Seq::empty());
    let label = LABEL_FINISHED;
    let key = hkdf_expand_label(suite, base_secret, &label, &nothing, suite.hash_len());
    hmac_vec(suite.sha384(), &key, transcript_hash)
}

// ---------------------------------------------------------------------------
// Records
// ---------------------------------------------------------------------------

/// The nonce of a record: the number of the record XORed into the end of the
/// initial vector.
pub open spec fn nonce_of(iv: Seq<u8>, seq: u64) -> Seq<u8> {
    Seq::new(
        12,
        |i: int|
            if i < 4 {
                iv[i]
            } else {
                iv[i] ^ be_bytes(seq as nat, 8)[i - 4]
            },
    )
}

fn nonce(iv: &[u8; 12], seq: u64) -> (out: [u8; 12])
    ensures
        out@ == nonce_of(iv@, seq),
{
    let mut number: Vec<u8> = Vec::new();
    push_be(&mut number, seq, 8);
    proof {
        lemma_be_bytes_len(seq as nat, 8);
        assert(number@ =~= be_bytes(seq as nat, 8));
    }
    let mut out: [u8; 12] = *iv;
    let mut i: usize = 0;
    while i < 8
        invariant
            i <= 8,
            number@.len() == 8,
            forall|j: int|
                0 <= j < 12 ==> #[trigger] out@[j] == (if 4 <= j < 4 + i {
                    iv@[j] ^ number@[j - 4]
                } else {
                    iv@[j]
                }),
        decreases 8 - i,
    {
        out[4 + i] = out[4 + i] ^ number[i];
        i = i + 1;
    }
    assert(out@ =~= nonce_of(iv@, seq));
    out
}

pub open spec fn sealed_with(key: CipherKey, nonce: Seq<u8>, aad: Seq<u8>, message: Seq<u8>) -> Seq<u8> {
    match key {
        CipherKey::Aes128(key) => aes128_seal(key@, nonce, aad, message),
        CipherKey::Aes256(key) => aes256_seal(key@, nonce, aad, message),
        CipherKey::ChaCha20(key) => chacha_seal(key@, nonce, aad, message),
    }
}

pub open spec fn opened_with(key: CipherKey, nonce: Seq<u8>, aad: Seq<u8>, sealed: Seq<u8>) -> Option<Seq<u8>> {
    match key {
        CipherKey::Aes128(key) => aes128_open(key@, nonce, aad, sealed),
        CipherKey::Aes256(key) => aes256_open(key@, nonce, aad, sealed),
        CipherKey::ChaCha20(key) => if sealed.len() > CHACHA_LIMIT + AEAD_TAG {
            None
        } else {
            chacha_open(key@, nonce, aad, sealed)
        },
    }
}

fn aead_seal(key: &CipherKey, nonce: &[u8; 12], aad: &[u8], message: &[u8]) -> (out: Vec<u8>)
    requires
        message@.len() <= key.limit(),
        aad@.len() <= AEAD_LIMIT,
    ensures
        out@ == sealed_with(*key, nonce@, aad@, message@),
        out@.len() == message@.len() + AEAD_TAG,
        opened_with(*key, nonce@, aad@, out@) == Some(message@),
{
    match key {
        CipherKey::Aes128(key) => aes128_encrypt(key, nonce, aad, message),
        CipherKey::Aes256(key) => aes256_encrypt(key, nonce, aad, message),
        CipherKey::ChaCha20(key) => chacha_encrypt(key, nonce, aad, message),
    }
}

fn aead_open(key: &CipherKey, nonce: &[u8; 12], aad: &[u8], sealed: &[u8]) -> (out: Option<Vec<u8>>)
    ensures
        match out {
            Some(out) => opened_with(*key, nonce@, aad@, sealed@) == Some(out@) && sealed@.len() == out@.len()
                + AEAD_TAG,
            None => opened_with(*key, nonce@, aad@, sealed@) is None,
        },
{
    match key {
        CipherKey::Aes128(key) => aes128_decrypt(key, nonce, aad, sealed),
        CipherKey::Aes256(key) => aes256_decrypt(key, nonce, aad, sealed),
        CipherKey::ChaCha20(key) => if sealed.len() as u64 > CHACHA_LIMIT + 16 {
            None
        } else {
            chacha_decrypt(key, nonce, aad, sealed)
        },
    }
}

/// The header of an encrypted record.
pub open spec fn sealed_header(len: nat) -> Seq<u8> {
    seq![0x17u8, 3, 3] + be_bytes(len, 2)
}

fn record_header(len: usize) -> (header: Vec<u8>)
    ensures
        header@ == sealed_header(len as nat),
        header@.len() == 5,
{
    let mut header: Vec<u8> = Vec::new();
    header.push(0x17);
    header.push(3);
    header.push(3);
    push_be(&mut header, len as u64, 2);
    proof {
        lemma_be_bytes_len(len as nat, 2);
        assert(header@ =~= sealed_header(len as nat));
    }
    header
}

/// How many zeros fill a record up to `pad_to_record` bytes: its header, the
/// text, the inner type and the tag are in it already.
pub open spec fn padding(len: nat, pad_to_record: Option<usize>) -> nat {
    match pad_to_record {
        Some(target) => if target > len + 22 {
            (target - len - 22) as nat
        } else {
            0
        },
        None => 0,
    }
}

/// Whether the cipher takes a text of this length with its type and padding,
/// and the machine the record.
pub open spec fn sealable(key: CipherKey, len: nat, pad_to_record: Option<usize>) -> bool {
    let inner = len + 1 + padding(len, pad_to_record);
    inner <= key.limit() && inner + AEAD_TAG <= usize::MAX
}

/// What is encrypted: the text, its type, and the padding.
pub open spec fn inner_text(inner_type: u8, plaintext: Seq<u8>, pad_to_record: Option<usize>) -> Seq<u8> {
    plaintext.push(inner_type) + zeros(padding(plaintext.len(), pad_to_record))
}

/// The record with a text.
pub open spec fn record_of(
    keys: TrafficKeys,
    inner_type: u8,
    plaintext: Seq<u8>,
    pad_to_record: Option<usize>,
) -> Seq<u8> {
    let inner = inner_text(inner_type, plaintext, pad_to_record);
    let header = sealed_header(inner.len() + AEAD_TAG as nat);
    header + sealed_with(keys.key, nonce_of(keys.iv@, keys.seq), header, inner)
}

pub fn encrypt_app(keys: &TrafficKeys, inner_type: u8, plaintext: &[u8]) -> (record: Vec<u8>)
    requires
        sealable(keys.key, plaintext@.len(), None),
    ensures
        record@ == record_of(*keys, inner_type, plaintext@, None),
        record@.len() == plaintext@.len() + 22,
        inner_type != 0 ==> opened_record(*keys, record@.skip(5)) == Ok::<(u8, Seq<u8>), RecordError>(
            (inner_type, plaintext@),
        ),
{
    encrypt_app_padded(keys, inner_type, plaintext, None)
}

/// `pad_to_record` is the length of the whole record, header and tag included,
/// where the text is not too long for it. The record opens to its text again;
/// an inner type of zero is none.
pub fn encrypt_app_padded(
    keys: &TrafficKeys,
    inner_type: u8,
    plaintext: &[u8],
    pad_to_record: Option<usize>,
) -> (record: Vec<u8>)
    requires
        sealable(keys.key, plaintext@.len(), pad_to_record),
    ensures
        record@ == record_of(*keys, inner_type, plaintext@, pad_to_record),
        record@.len() == plaintext@.len() + 22 + padding(plaintext@.len(), pad_to_record),
        inner_type != 0 ==> opened_record(*keys, record@.skip(5)) == Ok::<(u8, Seq<u8>), RecordError>(
            (inner_type, plaintext@),
        ),
{
    let mut inner: Vec<u8> = Vec::new();
    inner.extend_from_slice(plaintext);
    inner.push(inner_type);
    if let Some(target) = pad_to_record {
        if target > 21 && target - 21 > inner.len() {
            let fill = zero_bytes(target - 21 - inner.len());
            inner.extend_from_slice(&fill);
        }
    }
    proof {
        assert(inner@ =~= inner_text(inner_type, plaintext@, pad_to_record));
    }
    let mut record = record_header(inner.len() + 16);
    let nonce = nonce(&keys.iv, keys.seq);
    let sealed = aead_seal(&keys.key, &nonce, &record, &inner);
    let ghost header = record@;
    record.extend_from_slice(&sealed);
    proof {
        assert(record@ =~= record_of(*keys, inner_type, plaintext@, pad_to_record));
        assert(record@.skip(5) =~= sealed@);
        if inner_type != 0 {
            lemma_stripped(plaintext@.push(inner_type), padding(plaintext@.len(), pad_to_record));
            assert(plaintext@.push(inner_type).drop_last() =~= plaintext@);
        }
    }
    record
}

#[derive(Clone, Copy, Debug, PartialEq, Eq, Structural)]
pub enum RecordError {
    /// tls decrypt failed
    Decrypt,
    /// empty tls inner plaintext
    EmptyInner,
}

/// `s` without zeros at its end.
pub open spec fn stripped(s: Seq<u8>) -> Seq<u8>
    decreases s.len(),
{
    if s.len() > 0 && s.last() == 0 {
        stripped(s.drop_last())
    } else {
        s
    }
}

proof fn lemma_stripped(s: Seq<u8>, n: nat)
    requires
        s.len() > 0,
        s.last() != 0,
    ensures
        stripped(s + zeros(n)) == s,
    decreases n,
{
    let all = s + zeros(n);
    if n == 0 {
        assert(all =~= s);
    } else {
        assert(all.drop_last() =~= s + zeros((n - 1) as nat));
        lemma_stripped(s, (n - 1) as nat);
    }
}

/// The type and the text in a decrypted record: padding and type come off its
/// end.
pub open spec fn inner_of(plain: Seq<u8>) -> Result<(u8, Seq<u8>), RecordError> {
    let s = stripped(plain);
    if s.len() == 0 {
        Err(RecordError::EmptyInner)
    } else {
        Ok((s.last(), s.drop_last()))
    }
}

fn split_inner(plain: Vec<u8>) -> (out: Result<(u8, Vec<u8>), RecordError>)
    ensures
        match out {
            Ok((typ, text)) => inner_of(plain@) == Ok::<(u8, Seq<u8>), RecordError>((typ, text@)) && text@.len()
                < plain@.len(),
            Err(error) => inner_of(plain@) == Err::<(u8, Seq<u8>), RecordError>(error),
        },
{
    let ghost all = plain@;
    let mut plain = plain;
    while plain.len() > 0 && plain[plain.len() - 1] == 0
        invariant
            stripped(plain@) == stripped(all),
            plain@.len() <= all.len(),
        decreases plain@.len(),
    {
        let ghost before = plain@;
        plain.pop();
        assert(plain@ =~= before.drop_last());
    }
    let ghost rest = plain@;
    match plain.pop() {
        Some(typ) => {
            assert(plain@ =~= rest.drop_last());
            Ok((typ, plain))
        },
        None => Err(RecordError::EmptyInner),
    }
}

/// What the body of a record opens to.
pub open spec fn opened_record(keys: TrafficKeys, body: Seq<u8>) -> Result<(u8, Seq<u8>), RecordError> {
    match opened_with(keys.key, nonce_of(keys.iv@, keys.seq), sealed_header(body.len()), body) {
        Some(plain) => inner_of(plain),
        None => Err(RecordError::Decrypt),
    }
}

pub fn decrypt_app(keys: &TrafficKeys, body: &[u8]) -> (out: Result<(u8, Vec<u8>), RecordError>)
    ensures
        match out {
            Ok((typ, text)) => opened_record(*keys, body@) == Ok::<(u8, Seq<u8>), RecordError>((typ, text@))
                && text@.len() < body@.len(),
            Err(error) => opened_record(*keys, body@) == Err::<(u8, Seq<u8>), RecordError>(error),
        },
{
    let header = record_header(body.len());
    let nonce = nonce(&keys.iv, keys.seq);
    match aead_open(&keys.key, &nonce, &header, body) {
        Some(plain) => split_inner(plain),
        None => Err(RecordError::Decrypt),
    }
}

/// The keys after one more record. Their count starts again after the last
/// number.
pub open spec fn counted(keys: TrafficKeys) -> TrafficKeys {
    TrafficKeys {
        seq: if keys.seq == u64::MAX {
            0u64
        } else {
            (keys.seq + 1) as u64
        },
        ..keys
    }
}

impl TrafficKeys {
    /// Counts one record.
    pub fn count(&mut self)
        ensures
            *final(self) == counted(*old(self)),
    {
        self.seq = self.seq.wrapping_add(1);
    }

    pub fn encrypt(&mut self, inner_type: u8, plaintext: &[u8]) -> (record: Vec<u8>)
        requires
            sealable(old(self).key, plaintext@.len(), None),
        ensures
            record@ == record_of(*old(self), inner_type, plaintext@, None),
            record@.len() == plaintext@.len() + 22,
            inner_type != 0 ==> opened_record(*old(self), record@.skip(5)) == Ok::<(u8, Seq<u8>), RecordError>(
                (inner_type, plaintext@),
            ),
            *final(self) == counted(*old(self)),
    {
        self.encrypt_padded(inner_type, plaintext, None)
    }

    pub fn encrypt_padded(
        &mut self,
        inner_type: u8,
        plaintext: &[u8],
        pad_to_record: Option<usize>,
    ) -> (record: Vec<u8>)
        requires
            sealable(old(self).key, plaintext@.len(), pad_to_record),
        ensures
            record@ == record_of(*old(self), inner_type, plaintext@, pad_to_record),
            record@.len() == plaintext@.len() + 22 + padding(plaintext@.len(), pad_to_record),
            inner_type != 0 ==> opened_record(*old(self), record@.skip(5)) == Ok::<(u8, Seq<u8>), RecordError>(
                (inner_type, plaintext@),
            ),
            *final(self) == counted(*old(self)),
    {
        let record = encrypt_app_padded(self, inner_type, plaintext, pad_to_record);
        self.count();
        record
    }

    /// A record that does not open leaves the count as it is.
    pub fn decrypt(&mut self, body: &[u8]) -> (out: Result<(u8, Vec<u8>), RecordError>)
        ensures
            match out {
                Ok((typ, text)) => opened_record(*old(self), body@) == Ok::<(u8, Seq<u8>), RecordError>((typ, text@))
                    && *final(self) == counted(*old(self)) && text@.len() < body@.len(),
                Err(error) => opened_record(*old(self), body@) == Err::<(u8, Seq<u8>), RecordError>(error)
                    && *final(self) == *old(self),
            },
            *final(self) == after_record(*old(self), body@),
    {
        match decrypt_app(self, body) {
            Ok(out) => {
                self.count();
                Ok(out)
            },
            Err(error) => Err(error),
        }
    }
}

// ---------------------------------------------------------------------------
// Many records
// ---------------------------------------------------------------------------

/// The keys after so many records.
pub open spec fn counted_times(keys: TrafficKeys, n: nat) -> TrafficKeys
    decreases n,
{
    if n == 0 {
        keys
    } else {
        counted(counted_times(keys, (n - 1) as nat))
    }
}

/// The keys of a receiver after a record: one that does not open does not
/// count.
pub open spec fn after_record(keys: TrafficKeys, body: Seq<u8>) -> TrafficKeys {
    if opened_record(keys, body) is Ok {
        counted(keys)
    } else {
        keys
    }
}

/// Each record counts one, and leaves key and iv as they are.
pub proof fn law_records_are_counted(keys: TrafficKeys, n: nat)
    requires
        keys.seq + n <= u64::MAX,
    ensures
        counted_times(keys, n).seq == keys.seq + n,
        counted_times(keys, n).key == keys.key,
        counted_times(keys, n).iv == keys.iv,
    decreases n,
{
    if n > 0 {
        law_records_are_counted(keys, (n - 1) as nat);
    }
}

/// No two records under one key have the same nonce, as long as the count
/// does not start again.
pub proof fn law_no_nonce_twice(keys: TrafficKeys, a: nat, b: nat)
    requires
        a < b,
        keys.seq + b <= u64::MAX,
    ensures
        nonce_of(counted_times(keys, a).iv@, counted_times(keys, a).seq) != nonce_of(
            counted_times(keys, b).iv@,
            counted_times(keys, b).seq,
        ),
{
    law_records_are_counted(keys, a);
    law_records_are_counted(keys, b);
    let iv = keys.iv@;
    let x = (keys.seq + a) as u64;
    let y = (keys.seq + b) as u64;
    let p = nonce_of(iv, x);
    let q = nonce_of(iv, y);
    if p == q {
        lemma_be_range();
        lemma_be_bytes_len(x as nat, 8);
        lemma_be_bytes_len(y as nat, 8);
        lemma_value_of_bytes(x as nat, 8);
        lemma_value_of_bytes(y as nat, 8);
        let c = be_bytes(x as nat, 8);
        let d = be_bytes(y as nat, 8);
        assert forall|i: int| 0 <= i < 8 implies c[i] == d[i] by {
            let v = iv[i + 4];
            let l = c[i];
            let r = d[i];
            assert(p[i + 4] == v ^ l);
            assert(q[i + 4] == v ^ r);
            assert(v ^ l == v ^ r ==> l == r) by (bit_vector);
        }
        assert(c =~= d);
    }
}

/// A receiver that has counted as the sender has opens the next record, also
/// behind a forged or damaged one, and has counted as the sender again.
pub proof fn law_receiver_keeps_step(
    sender: TrafficKeys,
    receiver: TrafficKeys,
    forged: Seq<u8>,
    record: Seq<u8>,
    typ: u8,
    text: Seq<u8>,
)
    requires
        receiver == sender,
        opened_record(receiver, forged) is Err,
        opened_record(sender, record.skip(5)) == Ok::<(u8, Seq<u8>), RecordError>((typ, text)),
    ensures
        opened_record(after_record(receiver, forged), record.skip(5)) == Ok::<(u8, Seq<u8>), RecordError>((typ, text)),
        after_record(after_record(receiver, forged), record.skip(5)) == counted(sender),
{
}

} // verus!
