//! Keys, records and the secret in the session id, byte by byte.

use vstd::prelude::*;

use super::auth::{
    expand_block, expand_blocks, expanded, hash_size, hkdf_expand, hkdf_expand_vec, hkdf_sha256, hmac_of, hmac_sha256,
    hmac_sha384, hmac_sha512, key_pad, open_session_id, reality_auth_key, seal_session_id, session_id_plain,
    x25519_public,
};
use super::suite::{
    application_traffic_keys, encrypt_app, encrypt_app_padded, finished_verify, handshake_traffic_keys, traffic_keys,
    HsKeys, RecordError, Suite, TrafficKeys, Transcript,
};
use crate::crypto::{sha256, sha384, sha512, AEAD_LIMIT};
use crate::wire::{be_bytes, lemma_be_bytes_len};

verus! {

// ---------------------------------------------------------------------------
// HMAC and HKDF
// ---------------------------------------------------------------------------

/// A key filled up with zeros to a block, each byte XORed with `fill`.
pub open spec fn is_pad(pad: Seq<u8>, key: Seq<u8>, block: int, fill: u8) -> bool {
    &&& pad.len() == block
    &&& forall|i: int| 0 <= i < key.len() && i < block ==> #[trigger] pad[i] == key[i] ^ fill
    &&& forall|i: int| key.len() <= i < block ==> #[trigger] pad[i] == 0u8 ^ fill
}

/// An HMAC is the hash of the key with 0x5c and of the hash of the key with
/// 0x36 and the data; a key that is longer than a block is hashed first.
pub proof fn law_hmac(
    key: &[u8],
    data: &[u8],
    a: [u8; 32],
    b: [u8; 48],
    c: [u8; 64],
    inner: Seq<u8>,
    outer: Seq<u8>,
)
    requires
        call_ensures(hmac_sha256, (key, data), a),
        call_ensures(hmac_sha384, (key, data), b),
        call_ensures(hmac_sha512, (key, data), c),
    ensures
        key@.len() <= 64 && is_pad(inner, key@, 64, 0x36) && is_pad(outer, key@, 64, 0x5c) ==> a@ == sha256(
            outer + sha256(inner + data@),
        ),
        key@.len() > 64 && is_pad(inner, sha256(key@), 64, 0x36) && is_pad(outer, sha256(key@), 64, 0x5c) ==> a@
            == sha256(outer + sha256(inner + data@)),
        key@.len() <= 128 && is_pad(inner, key@, 128, 0x36) && is_pad(outer, key@, 128, 0x5c) ==> b@ == sha384(
            outer + sha384(inner + data@),
        ) && c@ == sha512(outer + sha512(inner + data@)),
        key@.len() > 128 && is_pad(inner, sha384(key@), 128, 0x36) && is_pad(outer, sha384(key@), 128, 0x5c) ==> b@
            == sha384(outer + sha384(inner + data@)),
        key@.len() > 128 && is_pad(inner, sha512(key@), 128, 0x36) && is_pad(outer, sha512(key@), 128, 0x5c) ==> c@
            == sha512(outer + sha512(inner + data@)),
{
    lemma_pad(key@, 64, inner, outer);
    lemma_pad(key@, 128, inner, outer);
    lemma_pad(sha256(key@), 64, inner, outer);
    lemma_pad(sha384(key@), 128, inner, outer);
    lemma_pad(sha512(key@), 128, inner, outer);
}

proof fn lemma_pad(key: Seq<u8>, block: nat, inner: Seq<u8>, outer: Seq<u8>)
    ensures
        is_pad(inner, key, block as int, 0x36) ==> inner == key_pad(key, block, 0x36),
        is_pad(outer, key, block as int, 0x5c) ==> outer == key_pad(key, block, 0x5c),
{
    if is_pad(inner, key, block as int, 0x36) {
        assert(inner =~= key_pad(key, block, 0x36));
    }
    if is_pad(outer, key, block as int, 0x5c) {
        assert(outer =~= key_pad(key, block, 0x5c));
    }
}

/// The blocks of an expansion: HMACs of the block before, `info`, and the
/// number of the block, from one.
pub open spec fn are_blocks(blocks: Seq<Seq<u8>>, wide: bool, prk: Seq<u8>, info: Seq<u8>) -> bool {
    forall|k: int|
        0 <= k < blocks.len() ==> {
            &&& (#[trigger] blocks[k]).len() == (if wide {
                48int
            } else {
                32
            })
            &&& blocks[k] == hmac_of(
                wide,
                prk,
                (if k == 0 {
                    Seq::empty()
                } else {
                    blocks[k - 1]
                }) + info + seq![(k + 1) as u8],
            )
        }
}

proof fn lemma_blocks(blocks: Seq<Seq<u8>>, wide: bool, prk: Seq<u8>, info: Seq<u8>, n: nat)
    requires
        are_blocks(blocks, wide, prk, info),
        n <= blocks.len(),
    ensures
        n > 0 ==> expand_block(wide, prk, info, n) == blocks[n - 1],
        expand_blocks(wide, prk, info, n).len() == n * hash_size(wide),
        forall|i: int|
            0 <= i < n * hash_size(wide) ==> #[trigger] expand_blocks(wide, prk, info, n)[i] == blocks[i / (hash_size(
                wide,
            ) as int)][i % (hash_size(wide) as int)],
    decreases n,
{
    let size = hash_size(wide) as int;
    if n > 0 {
        lemma_blocks(blocks, wide, prk, info, (n - 1) as nat);
        let before = expand_blocks(wide, prk, info, (n - 1) as nat);
        let last = blocks[n - 1];
        assert(last.len() == size);
        let earlier = if n == 1 {
            Seq::empty()
        } else {
            blocks[n - 2]
        };
        assert(expand_block(wide, prk, info, (n - 1) as nat) == earlier);
        assert(last == hmac_of(wide, prk, earlier + info + seq![n as u8]));
        assert(expand_block(wide, prk, info, n) == last);
        assert((n - 1) * size + size == n * size) by (nonlinear_arith);
        let all = expand_blocks(wide, prk, info, n);
        assert(all =~= before + last);
        assert forall|i: int| 0 <= i < n * size implies #[trigger] all[i] == blocks[i / size][i % size] by {
            if i < (n - 1) * size {
                assert(all[i] == before[i]);
            } else {
                let r = i - (n - 1) * size;
                assert(i / size == n - 1 && i % size == r) by (nonlinear_arith)
                    requires
                        i == (n - 1) * size + r,
                        0 <= r < size,
                ;
                assert(all[i] == last[r]);
            }
        }
    } else {
        assert(0 * size == 0);
    }
}

/// HKDF-Expand gives as many bytes as asked for, off the front of its blocks.
pub proof fn law_expansion(
    wide: bool,
    prk: &[u8],
    info: &[u8],
    len: usize,
    okm: Vec<u8>,
    narrow: Vec<u8>,
    blocks: Seq<Seq<u8>>,
    i: int,
)
    requires
        call_ensures(hkdf_expand_vec, (wide, prk, info, len), okm),
        call_ensures(hkdf_expand, (prk, info, len), narrow),
        are_blocks(blocks, wide, prk@, info@),
        0 <= i < len <= blocks.len() * (if wide {
            48int
        } else {
            32
        }),
    ensures
        okm@.len() == len,
        wide ==> okm@[i] == blocks[i / 48][i % 48],
        !wide ==> okm@[i] == blocks[i / 32][i % 32],
        !wide ==> narrow@ == okm@,
{
    let size = hash_size(wide) as int;
    let n = (len as int + size - 1) / size;
    if wide {
        assert(n == (len as int + 47) / 48);
        assert(n <= blocks.len() && len <= n * 48);
    } else {
        assert(n == (len as int + 31) / 32);
        assert(n <= blocks.len() && len <= n * 32);
    }
    lemma_blocks(blocks, wide, prk@, info@, n as nat);
    assert(okm@ == expand_blocks(wide, prk@, info@, n as nat).take(len as int));
    assert(okm@[i] == expand_blocks(wide, prk@, info@, n as nat)[i]);
}

/// HKDF takes the HMAC of its input under the salt, and expands that. The
/// REALITY key is that of the shared secret, under the first twenty random
/// bytes of the hello, for `REALITY`.
pub proof fn law_auth_key(
    ikm: &[u8],
    salt: &[u8],
    info: &[u8],
    len: usize,
    okm: Vec<u8>,
    prk: [u8; 32],
    secret: &[u8],
    expansion: Vec<u8>,
    shared: &[u8; 32],
    random: &[u8; 32],
    key: [u8; 32],
)
    requires
        call_ensures(hkdf_sha256, (ikm, salt, info, len), okm),
        call_ensures(hmac_sha256, (salt, ikm), prk),
        secret@ == prk@,
        call_ensures(hkdf_expand, (secret, info, len), expansion),
        call_ensures(reality_auth_key, (shared, random), key),
    ensures
        okm@ == expansion@,
        ikm@ == shared@ && salt@ == random@.subrange(0, 20) && info@ == seq![82u8, 69, 65, 76, 73, 84, 89] && len == 32
            ==> key@ == okm@,
{
    assert(random@.take(20) =~= random@.subrange(0, 20));
    let name = super::auth::REALITY_INFO;
    assert(name@ =~= seq![82u8, 69, 65, 76, 73, 84, 89]);
}

/// A session id is the version, a zero, the time with its highest byte first,
/// and the short id.
pub proof fn law_session_id(version: [u8; 3], secs: u32, short: [u8; 8], plain: [u8; 16])
    requires
        call_ensures(session_id_plain, (version, secs, short), plain),
    ensures
        plain@.subrange(0, 3) == version@,
        plain@[3] == 0,
        plain@[4] * 0x100_0000 + plain@[5] * 0x1_0000 + plain@[6] * 0x100 + plain@[7] == secs,
        plain@.subrange(8, 16) == short@,
{
    lemma_be_bytes_len(secs as nat, 4);
    let four = be_bytes(secs as nat, 4);
    assert(plain@ =~= version@ + seq![0u8] + four + short@);
    assert(plain@.subrange(0, 3) =~= version@);
    assert(plain@.subrange(8, 16) =~= short@);
    reveal_with_fuel(be_bytes, 5);
    assert(plain@[4] == four[0] && plain@[5] == four[1] && plain@[6] == four[2] && plain@[7] == four[3]);
    let n = secs as int;
    assert(n / 256 / 256 / 256 % 256 == n / 256 / 256 / 256);
}

/// What a client seals for a server's public key, the server opens with its
/// private one, from the hello that holds it. In any place but its own the
/// hello has to be the same.
pub proof fn law_server_opens(
    client_private: &[u8; 32],
    client_public: &[u8; 32],
    server_private: &[u8; 32],
    server_public: &[u8; 32],
    random: &[u8; 32],
    plain: &[u8; 16],
    hello: &[u8],
    sealed: [u8; 32],
    id: &[u8],
    sent: &[u8],
    read: Option<[u8; 16]>,
)
    requires
        call_ensures(x25519_public, (client_private,), *client_public),
        call_ensures(x25519_public, (server_private,), *server_public),
        hello@.len() <= AEAD_LIMIT,
        hello@.len() >= 71,
        forall|i: int| 39 <= i < 71 ==> #[trigger] hello@[i] == 0,
        call_ensures(seal_session_id, (client_private, server_public, random, plain, hello), sealed),
        sent@.len() == hello@.len(),
        forall|i: int| 0 <= i < sent@.len() && !(39 <= i < 71) ==> #[trigger] sent@[i] == hello@[i],
        sent@.subrange(39, 71) == sealed@,
        id@ == sealed@,
        call_ensures(open_session_id, (server_private, client_public, random, id, sent), read),
    ensures
        read matches Some(read) && read@ == plain@,
{
    assert(super::auth::blanked(sent@) =~= hello@);
}

// ---------------------------------------------------------------------------
// Suites
// ---------------------------------------------------------------------------

/// Three suites, with their keys and hashes.
pub proof fn law_suites(id: u16, suite: Option<Suite>, s: Suite, hash: usize, key: usize)
    requires
        call_ensures(Suite::from_id, (id,), suite),
        call_ensures(Suite::hash_len, (s,), hash),
        call_ensures(Suite::key_len, (s,), key),
    ensures
        id == 0x1301 <==> suite == Some(Suite::Aes128GcmSha256),
        id == 0x1302 <==> suite == Some(Suite::Aes256GcmSha384),
        id == 0x1303 <==> suite == Some(Suite::ChaCha20Poly1305Sha256),
        s == Suite::Aes128GcmSha256 ==> hash == 32 && key == 16,
        s == Suite::Aes256GcmSha384 ==> hash == 48 && key == 32,
        s == Suite::ChaCha20Poly1305Sha256 ==> hash == 32 && key == 32,
{
}

/// A transcript hashes all that was said, in that order.
pub proof fn law_transcript(
    suite: Suite,
    fresh: Transcript,
    t: &mut Transcript,
    said: &[u8],
    after: &Transcript,
    hash: Vec<u8>,
)
    requires
        call_ensures(Transcript::new, (suite,), fresh),
        call_ensures(Transcript::update, (t, said), ()),
        *after == *final(t),
        call_ensures(Transcript::hash, (after,), hash),
    ensures
        fresh.said().len() == 0 && fresh.suite() == suite,
        after.suite() == old(t).suite(),
        after.said() == old(t).said() + said@,
        after.suite() == Suite::Aes256GcmSha384 ==> hash@ == sha384(after.said()),
        after.suite() != Suite::Aes256GcmSha384 ==> hash@ == sha256(after.said()),
{
}

/// The bytes that a labelled expansion is for: its length, `tls13 ` and the
/// label, and the context, the latter two behind their lengths.
pub open spec fn label_bytes(label: Seq<u8>, context: Seq<u8>, len: int) -> Seq<u8> {
    seq![(len / 256) as u8, (len % 256) as u8, (label.len() + 6) as u8, 116, 108, 115, 49, 51, 32] + label + seq![
        context.len() as u8,
    ] + context
}

proof fn lemma_label(label: Seq<u8>, context: Seq<u8>, len: nat)
    requires
        label.len() <= 249,
        context.len() <= 255,
        len < 65536,
    ensures
        super::suite::label_info(label, context, len) == label_bytes(label, context, len as int),
{
    lemma_be_bytes_len(len, 2);
    lemma_be_bytes_len(6 + label.len(), 1);
    lemma_be_bytes_len(context.len(), 1);
    reveal_with_fuel(be_bytes, 3);
    let prefix = super::suite::LABEL_PREFIX;
    assert(be_bytes(len, 2) =~= seq![(len as int / 256) as u8, (len as int % 256) as u8]);
    assert(be_bytes(6 + label.len(), 1) =~= seq![(label.len() + 6) as u8]);
    assert(be_bytes(context.len(), 1) =~= seq![context.len() as u8]);
    assert(super::suite::label_info(label, context, len) =~= label_bytes(label, context, len as int));
}

/// A side's key and vector are expansions of its secret for `key` and `iv`,
/// and nothing was counted yet.
pub proof fn law_traffic_keys(suite: Suite, secret: &[u8], keys: TrafficKeys)
    requires
        call_ensures(traffic_keys, (suite, secret), keys),
    ensures
        keys.seq == 0,
        ({
            let wide = suite == Suite::Aes256GcmSha384;
            let size = if suite == Suite::Aes128GcmSha256 {
                16nat
            } else {
                32
            };
            &&& keys.key.bytes() == expanded(
                wide,
                secret@,
                label_bytes(seq![107u8, 101, 121], Seq::empty(), size as int),
                size,
            )
            &&& keys.iv@ == expanded(wide, secret@, label_bytes(seq![105u8, 118], Seq::empty(), 12), 12)
        }),
        suite == Suite::Aes128GcmSha256 <==> keys.key is Aes128,
        suite == Suite::Aes256GcmSha384 <==> keys.key is Aes256,
{
    let k = super::suite::LABEL_KEY;
    let v = super::suite::LABEL_IV;
    assert(k@ =~= seq![107u8, 101, 121]);
    assert(v@ =~= seq![105u8, 118]);
    lemma_label(k@, Seq::empty(), suite.key_size());
    lemma_label(v@, Seq::empty(), 12);
}

/// A secret for a label, as long as the suite's hash.
pub open spec fn secret_for(suite: Suite, secret: Seq<u8>, label: Seq<u8>, context: Seq<u8>) -> Seq<u8> {
    let wide = suite == Suite::Aes256GcmSha384;
    let size = if wide {
        48nat
    } else {
        32
    };
    expanded(wide, secret, label_bytes(label, context, size as int), size)
}

/// The schedule of secrets: from zeros to the shared key, from there to the
/// two sides of the handshake and of what follows.
pub proof fn law_key_schedule(
    suite: Suite,
    shared: &[u8; 32],
    hello_hash: &[u8],
    hs: (HsKeys, HsKeys, Vec<u8>),
    secret: &[u8],
    hash: &[u8],
    ap: (TrafficKeys, TrafficKeys),
    zeros: Seq<u8>,
    empty_hash: Seq<u8>,
)
    requires
        call_ensures(handshake_traffic_keys, (suite, shared, hello_hash), hs),
        secret@ == hs.2@,
        call_ensures(application_traffic_keys, (suite, secret, hash), ap),
        hello_hash@.len() <= 255,
        hash@.len() <= 255,
        zeros.len() == (if suite == Suite::Aes256GcmSha384 {
            48int
        } else {
            32
        }),
        forall|i: int| 0 <= i < zeros.len() ==> #[trigger] zeros[i] == 0,
        suite == Suite::Aes256GcmSha384 ==> empty_hash == sha384(Seq::empty()),
        suite != Suite::Aes256GcmSha384 ==> empty_hash == sha256(Seq::empty()),
        empty_hash.len() <= 255,
    ensures
        ({
            let wide = suite == Suite::Aes256GcmSha384;
            let derived = seq![100u8, 101, 114, 105, 118, 101, 100];
            let hs_secret = hmac_of(
                wide,
                secret_for(suite, hmac_of(wide, zeros, zeros), derived, empty_hash),
                shared@,
            );
            let master = hmac_of(wide, secret_for(suite, hs_secret, derived, empty_hash), zeros);
            let c_hs = seq![99u8, 32, 104, 115, 32, 116, 114, 97, 102, 102, 105, 99];
            let s_hs = c_hs.update(0, 115);
            let c_ap = c_hs.update(2, 97).update(3, 112);
            let s_ap = c_ap.update(0, 115);
            &&& hs.2@ == hs_secret
            &&& hs.0.secret@ == secret_for(suite, hs_secret, c_hs, hello_hash@)
            &&& hs.1.secret@ == secret_for(suite, hs_secret, s_hs, hello_hash@)
            &&& super::suite::keys_for(hs.0.keys, suite, hs.0.secret@)
            &&& super::suite::keys_for(hs.1.keys, suite, hs.1.secret@)
            &&& super::suite::keys_for(ap.0, suite, secret_for(suite, master, c_ap, hash@))
            &&& super::suite::keys_for(ap.1, suite, secret_for(suite, master, s_ap, hash@))
        }),
{
    let wide = suite == Suite::Aes256GcmSha384;
    let size = hash_size(wide);
    assert(zeros =~= super::suite::zeros(size));
    let d = super::suite::LABEL_DERIVED;
    let c_hs = super::suite::LABEL_CLIENT_HANDSHAKE;
    let s_hs = super::suite::LABEL_SERVER_HANDSHAKE;
    let c_ap = super::suite::LABEL_CLIENT_APPLICATION;
    let s_ap = super::suite::LABEL_SERVER_APPLICATION;
    let base = seq![99u8, 32, 104, 115, 32, 116, 114, 97, 102, 102, 105, 99];
    assert(d@ =~= seq![100u8, 101, 114, 105, 118, 101, 100]);
    assert(c_hs@ =~= base);
    assert(s_hs@ =~= base.update(0, 115));
    assert(c_ap@ =~= base.update(2, 97).update(3, 112));
    assert(s_ap@ =~= base.update(2, 97).update(3, 112).update(0, 115));
    lemma_label(d@, empty_hash, size);
    lemma_label(c_hs@, hello_hash@, size);
    lemma_label(s_hs@, hello_hash@, size);
    lemma_label(c_ap@, hash@, size);
    lemma_label(s_ap@, hash@, size);
}

/// A Finished message is the HMAC of the transcript under the expansion of
/// the side's secret for `finished`.
pub proof fn law_finished(suite: Suite, secret: &[u8], hash: &[u8], mac: Vec<u8>)
    requires
        call_ensures(finished_verify, (suite, secret, hash), mac),
    ensures
        mac@ == hmac_of(
            suite == Suite::Aes256GcmSha384,
            secret_for(suite, secret@, seq![102u8, 105, 110, 105, 115, 104, 101, 100], Seq::empty()),
            hash@,
        ),
{
    let f = super::suite::LABEL_FINISHED;
    assert(f@ =~= seq![102u8, 105, 110, 105, 115, 104, 101, 100]);
    lemma_label(f@, Seq::empty(), hash_size(suite.wide_hash()));
}

// ---------------------------------------------------------------------------
// Records
// ---------------------------------------------------------------------------

/// A record is 0x17, 3, 3, its length and the sealed text, 22 bytes longer
/// than the text, or as long as it is to be. The receiver with the same keys
/// reads type and text, and both count one.
pub proof fn law_record(
    sender: &mut TrafficKeys,
    receiver: &mut TrafficKeys,
    inner_type: u8,
    plaintext: &[u8],
    pad: Option<usize>,
    record: Vec<u8>,
    body: &[u8],
    read: Result<(u8, Vec<u8>), RecordError>,
)
    requires
        super::suite::sealable(old(sender).key, plaintext@.len(), pad),
        call_ensures(TrafficKeys::encrypt_padded, (sender, inner_type, plaintext, pad), record),
        *old(receiver) == *old(sender),
        record@.len() < 65536 + 5,
        inner_type != 0,
        body@ == record@.skip(5),
        call_ensures(TrafficKeys::decrypt, (receiver, body), read),
    ensures
        record@.len() >= 5,
        record@[0] == 0x17 && record@[1] == 3 && record@[2] == 3,
        record@[3] * 256 + record@[4] == record@.len() - 5,
        read matches Ok((typ, text)) && typ == inner_type && text@ == plaintext@,
        final(sender).key == old(sender).key && final(sender).iv == old(sender).iv,
        old(sender).seq < u64::MAX ==> final(sender).seq == old(sender).seq + 1,
        *final(receiver) == *final(sender),
{
    let keys = *old(sender);
    let inner = super::suite::inner_text(inner_type, plaintext@, pad);
    let n = inner.len() + 16;
    lemma_be_bytes_len(n, 2);
    reveal_with_fuel(be_bytes, 3);
    let header = super::suite::sealed_header(n);
    assert(record@ == header + super::suite::sealed_with(keys.key, super::suite::nonce_of(keys.iv@, keys.seq), header, inner));
    assert(header.len() == 5);
    assert(record@[0] == header[0] && record@[1] == header[1] && record@[2] == header[2]);
    assert(record@[3] == header[3] && record@[4] == header[4]);
    assert(header[3] == be_bytes(n, 2)[0] && header[4] == be_bytes(n, 2)[1]);
}

/// How long a record is.
pub proof fn law_record_length(
    keys: &TrafficKeys,
    inner_type: u8,
    plaintext: &[u8],
    target: usize,
    plain: Vec<u8>,
    padded: Vec<u8>,
)
    requires
        call_ensures(encrypt_app, (keys, inner_type, plaintext), plain),
        call_ensures(encrypt_app_padded, (keys, inner_type, plaintext, Some(target)), padded),
    ensures
        plain@.len() == plaintext@.len() + 22,
        target >= plain@.len() ==> padded@.len() == target,
        target < plain@.len() ==> padded@ == plain@,
{
}

} // verus!
