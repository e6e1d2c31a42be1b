//! What is written in a hello is what is read from it.

use vstd::prelude::*;

use super::auth::{blanked, SESSION_ID_LEN, SESSION_ID_OFFSET};
use super::hello::{
    alpn_in, body_of, client_body, client_hello_in, client_runs, client_share_in, entries, extension_types_in,
    first_share, handshake_in, last_of, lemma_only_entry, protocols, run_end, server_hello_in, server_marks,
    server_share_in, sni_bytes, sni_in, types_of, x25519_in, ClientHelloParts, ServerHelloParts, ALPN_H2, ALPN_HTTP11,
    EXT_ALPN, EXT_KEY_SHARE, EXT_SERVER_NAME, EXT_SUPPORTED_VERSIONS, GROUP_X25519, GROUP_X25519_MLKEM768, HRR_RANDOM,
};
use super::hello_build::{
    alpn_wire, client_hello_body, client_hello_wire, entries_wire, entry_wire, grease_pair_of, grease_spec,
    grease_value, hello_extensions, hello_record, in_order, key_share_wire, message_wire, middle_extensions,
    names_wire, ordered_extensions, run_wire, server_extension_list, server_hello_body, server_share, server_versions,
    shares_of, shuffled, sni_wire, swapped, u16s_wire, HelloNoise, CHROME_CIPHERS,
};
use crate::crypto::mlkem768_key;
use crate::wire::{be_bytes, be_range, lemma_be_bytes_len, lemma_be_range, lemma_value_of_bytes};

verus! {

/// A run that was written at `at` is found there.
pub(super) proof fn lemma_run(s: Seq<u8>, at: int, data: Seq<u8>, k: nat)
    requires
        0 <= at,
        data.len() < be_range(k),
        at + k + data.len() <= s.len(),
        s.subrange(at, at + k) == be_bytes(data.len(), k),
        s.subrange(at + k, at + k + data.len()) == data,
    ensures
        run_end(s, at, k) == Some(at + k + data.len()),
{
    lemma_value_of_bytes(data.len(), k);
}

proof fn lemma_entries_head(e: (nat, Seq<u8>), rest: Seq<u8>)
    requires
        e.0 < 0x1_0000,
        e.1.len() < 0x1_0000,
        entries(rest) is Some,
    ensures
        entries(entry_wire(e.0, e.1) + rest) == Some(seq![e] + entries(rest)->0),
{
    let s = entry_wire(e.0, e.1) + rest;
    let n = e.1.len();
    lemma_be_bytes_len(e.0, 2);
    lemma_be_bytes_len(n, 2);
    lemma_be_range();
    assert(s.subrange(0, 2) =~= be_bytes(e.0, 2));
    assert(s.subrange(2, 4) =~= be_bytes(n, 2));
    assert(s.subrange(4, 4 + n as int) =~= e.1);
    lemma_run(s, 2, e.1, 2);
    lemma_value_of_bytes(e.0, 2);
    assert(s.skip(4 + n as int) =~= rest);
}

pub(super) proof fn lemma_entries_wire_head(list: Seq<(nat, Seq<u8>)>)
    requires
        list.len() > 0,
    ensures
        entries_wire(list) == entry_wire(list[0].0, list[0].1) + entries_wire(list.skip(1)),
    decreases list.len(),
{
    let tail = list.skip(1);
    if list.len() == 1 {
        assert(list.drop_last() =~= Seq::empty());
        assert(tail =~= Seq::empty());
        assert(entries_wire(list) =~= entry_wire(list[0].0, list[0].1) + entries_wire(tail));
    } else {
        lemma_entries_wire_head(list.drop_last());
        assert(list.drop_last().skip(1) =~= tail.drop_last());
        assert(entries_wire(list) =~= entry_wire(list[0].0, list[0].1) + entries_wire(tail));
    }
}

/// Whether types and lengths fit in their two bytes.
pub open spec fn entries_fit(list: Seq<(nat, Seq<u8>)>) -> bool {
    forall|i: int| 0 <= i < list.len() ==> (#[trigger] list[i]).0 < 0x1_0000 && list[i].1.len() < 0x1_0000
}

/// Entries read back as they were written.
pub(super) proof fn lemma_entries_roundtrip(list: Seq<(nat, Seq<u8>)>)
    requires
        entries_fit(list),
    ensures
        entries(entries_wire(list)) == Some(list),
    decreases list.len(),
{
    if list.len() == 0 {
        assert(entries_wire(list) =~= Seq::empty());
        assert(list =~= Seq::empty());
    } else {
        let tail = list.skip(1);
        assert forall|i: int| 0 <= i < tail.len() implies (#[trigger] tail[i]).0 < 0x1_0000 && tail[i].1.len()
            < 0x1_0000 by {
            assert(tail[i] == list[i + 1]);
        }
        lemma_entries_roundtrip(tail);
        lemma_entries_wire_head(list);
        lemma_entries_head(list[0], entries_wire(tail));
        assert(seq![list[0]] + tail =~= list);
    }
}

/// No entry is longer than all of them together.
proof fn lemma_entry_len(list: Seq<(nat, Seq<u8>)>, k: int)
    requires
        0 <= k < list.len(),
    ensures
        4 + list[k].1.len() <= entries_wire(list).len(),
    decreases list.len(),
{
    let last = list.last();
    lemma_be_bytes_len(last.0, 2);
    lemma_be_bytes_len(last.1.len(), 2);
    if k < list.len() - 1 {
        lemma_entry_len(list.drop_last(), k);
    }
}

// ---------------------------------------------------------------------------
// The shuffle
// ---------------------------------------------------------------------------

/// Each of the sixteen places once.
pub open spec fn permuted(s: Seq<usize>) -> bool {
    &&& s.len() == 16
    &&& forall|i: int| 0 <= i < 16 ==> (#[trigger] s[i]) < 16
    &&& forall|i: int, j: int| 0 <= i < j < 16 ==> s[i] != s[j]
    &&& forall|v: usize| v < 16 ==> #[trigger] s.contains(v)
}

pub(super) proof fn lemma_shuffled(s: Seq<usize>, picks: Seq<u8>, i: nat)
    requires
        permuted(s),
        i < 16,
    ensures
        permuted(shuffled(s, picks, i)),
    decreases i,
{
    if i > 0 {
        let j = (picks[i as int] as nat % (i + 1)) as int;
        let t = swapped(s, i as int, j);
        assert forall|v: usize| v < 16 implies #[trigger] t.contains(v) by {
            assert(s.contains(v));
            let k = s.index_of(v);
            if k == i {
                assert(t[j] == v);
            } else if k == j {
                assert(t[i as int] == v);
            } else {
                assert(t[k] == v);
            }
        }
        lemma_shuffled(t, picks, (i - 1) as nat);
    }
}

pub(super) proof fn lemma_in_order()
    ensures
        permuted(in_order()),
{
    let s = in_order();
    assert forall|v: usize| v < 16 implies #[trigger] s.contains(v) by {
        assert(s[v as int] == v);
    }
}

/// The type of an extension is that of no other.
proof fn lemma_middle_types(host: Seq<u8>, public: Seq<u8>, grease: (nat, nat), noise: HelloNoise)
    ensures
        ({
            let middle = middle_extensions(host, public, grease, noise);
            &&& middle.len() == 16
            &&& forall|i: int| 0 <= i < 16 ==> (#[trigger] middle[i]).0 < 0x1_0000
            &&& forall|i: int| 0 <= i < 16 && i != 0 ==> (#[trigger] middle[i]).0 != EXT_SERVER_NAME
            &&& forall|i: int| 0 <= i < 16 && i != 6 ==> (#[trigger] middle[i]).0 != EXT_ALPN
            &&& forall|i: int| 0 <= i < 16 && i != 10 ==> (#[trigger] middle[i]).0 != EXT_KEY_SHARE
            &&& middle[0] == (EXT_SERVER_NAME as nat, sni_wire(host))
            &&& middle[6] == (EXT_ALPN as nat, alpn_wire(seq![ALPN_H2@, ALPN_HTTP11@]))
            &&& middle[10] == (EXT_KEY_SHARE as nat, key_share_wire(grease.0, noise.mlkem_seed@, public))
        }),
{
}

/// The last extension of the type that stands at `m` before the shuffle is
/// that one.
proof fn lemma_find_extension(host: Seq<u8>, public: Seq<u8>, noise: HelloNoise, m: usize)
    requires
        m == 0 || m == 6 || m == 10,
    ensures
        ({
            let grease = grease_pair_of(noise.first_grease, noise.last_grease);
            let middle = middle_extensions(host, public, grease, noise);
            last_of(hello_extensions(host, public, noise), middle[m as int].0) == Some(middle[m as int].1)
        }),
{
    let grease = grease_pair_of(noise.first_grease, noise.last_grease);
    let middle = middle_extensions(host, public, grease, noise);
    let order = shuffled(in_order(), noise.order@, 15);
    let list = hello_extensions(host, public, noise);
    lemma_in_order();
    lemma_shuffled(in_order(), noise.order@, 15);
    lemma_middle_types(host, public, grease, noise);
    assert(order.contains(m));
    let k = order.index_of(m);
    assert(list[k + 1] == middle[m as int]);
    assert forall|j: int| 0 <= j < list.len() && j != k + 1 implies (#[trigger] list[j]).0 != list[k + 1].0 by {
        if 1 <= j <= 16 {
            assert(list[j] == middle[order[j - 1] as int]);
            assert(order[j - 1] != order[k]);
        }
    }
    lemma_only_entry(list, k + 1);
}

/// Whatever the random bytes, a ClientHello has the same extensions: two
/// different ones of GREASE at the ends, and between them each of the sixteen
/// once, in some order.
pub proof fn law_hello_shape(host: Seq<u8>, public: Seq<u8>, noise: HelloNoise)
    ensures
        ({
            let list = hello_extensions(host, public, noise);
            let grease = grease_pair_of(noise.first_grease, noise.last_grease);
            let middle = middle_extensions(host, public, grease, noise);
            let order = shuffled(in_order(), noise.order@, 15);
            &&& list.len() == 18
            &&& middle.len() == 16
            &&& grease_spec(list[0].0)
            &&& grease_spec(list[17].0)
            &&& list[0].0 != list[17].0
            &&& permuted(order)
            &&& forall|k: int| 0 <= k < 16 ==> list[k + 1] == middle[(#[trigger] order[k]) as int]
        }),
{
    let i = (noise.first_grease % 16) as nat;
    let j = (noise.last_grease % 16) as nat;
    let other = if i == j {
        (i + 8) % 16
    } else {
        j
    };
    let list = hello_extensions(host, public, noise);
    assert(list[0].0 == grease_value(i));
    assert(list[17].0 == grease_value(other));
    lemma_in_order();
    lemma_shuffled(in_order(), noise.order@, 15);
}

// ---------------------------------------------------------------------------
// What the extensions hold
// ---------------------------------------------------------------------------

proof fn lemma_sni(sni: Seq<char>)
    requires
        vstd::utf8::encode_utf8(sni).len() + 3 < 0x1_0000,
    ensures
        sni_in(sni_wire(vstd::utf8::encode_utf8(sni))) == Some(sni),
{
    let host = vstd::utf8::encode_utf8(sni);
    let data = sni_wire(host);
    let list = seq![0u8] + run_wire(host);
    lemma_be_range();
    lemma_be_bytes_len(host.len(), 2);
    lemma_be_bytes_len(list.len(), 2);
    assert(data.subrange(0, 2) =~= be_bytes(list.len(), 2));
    assert(data.subrange(2, 2 + list.len() as int) =~= list);
    lemma_run(data, 0, list, 2);
    assert(list.subrange(1, 3) =~= be_bytes(host.len(), 2));
    assert(list.subrange(3, 3 + host.len() as int) =~= host);
    lemma_run(list, 1, host, 2);
    assert(sni_bytes(data) == Some(host));
    vstd::utf8::encode_utf8_valid_utf8(sni);
    vstd::utf8::encode_utf8_decode_utf8(sni);
}

proof fn lemma_alpn()
    ensures
        alpn_in(alpn_wire(seq![ALPN_H2@, ALPN_HTTP11@])) == seq![ALPN_H2@, ALPN_HTTP11@],
{
    let a = ALPN_H2@;
    let b = ALPN_HTTP11@;
    let names = seq![a, b];
    let inner = names_wire(names);
    assert(names.drop_last() =~= seq![a]);
    assert(seq![a].drop_last() =~= Seq::empty());
    assert(names_wire(Seq::empty()) =~= Seq::empty());
    lemma_be_bytes_len(2, 1);
    lemma_be_bytes_len(8, 1);
    lemma_be_range();
    assert(a.len() == 2 && b.len() == 8);
    reveal_with_fuel(names_wire, 3);
    assert(names_wire(seq![a]) =~= be_bytes(2, 1) + a);
    assert(inner =~= be_bytes(2, 1) + a + be_bytes(8, 1) + b);
    let data = alpn_wire(names);
    lemma_be_bytes_len(inner.len(), 2);
    assert(data.subrange(0, 2) =~= be_bytes(inner.len(), 2));
    assert(data.subrange(2, 2 + inner.len() as int) =~= inner);
    lemma_run(data, 0, inner, 2);
    assert(inner.subrange(0, 1) =~= be_bytes(2, 1));
    assert(inner.subrange(1, 3) =~= a);
    lemma_run(inner, 0, a, 1);
    let rest = inner.skip(3);
    assert(rest.subrange(0, 1) =~= be_bytes(8, 1));
    assert(rest.subrange(1, 9) =~= b);
    lemma_run(rest, 0, b, 1);
    assert(rest.skip(9) =~= Seq::empty());
    assert(protocols(Seq::empty()) =~= Seq::empty());
    assert(protocols(rest) =~= seq![b]);
    assert(protocols(inner) =~= names);
}

proof fn lemma_key_share(grease: nat, seed: Seq<u8>, public: Seq<u8>)
    requires
        grease < 0x1_0000,
        grease != GROUP_X25519,
        grease != GROUP_X25519_MLKEM768,
        mlkem768_key(seed).len() == 1184,
        public.len() == 32,
    ensures
        client_share_in(key_share_wire(grease, seed, public)) == Some(public),
{
    let list = shares_of(grease, seed, public);
    let inner = entries_wire(list);
    let data = run_wire(inner);
    lemma_be_range();
    lemma_entries_wire_head(list);
    let tail = list.skip(1);
    lemma_entries_wire_head(tail);
    let last = tail.skip(1);
    lemma_entries_wire_head(last);
    assert(last.skip(1) =~= Seq::empty());
    let none = (grease, seq![0u8]);
    let hybrid = mlkem768_key(seed) + public;
    assert(tail[0] == (GROUP_X25519_MLKEM768 as nat, hybrid));
    assert(last[0] == (GROUP_X25519 as nat, public));
    lemma_be_bytes_len(grease, 2);
    lemma_be_bytes_len(1, 2);
    lemma_be_bytes_len(GROUP_X25519_MLKEM768 as nat, 2);
    lemma_be_bytes_len(hybrid.len(), 2);
    lemma_be_bytes_len(GROUP_X25519 as nat, 2);
    lemma_be_bytes_len(32, 2);
    let rest = entries_wire(tail);
    assert(rest.len() == 1216 + 4 + 32 + 4);
    assert(inner =~= entry_wire(grease, seq![0u8]) + rest);
    lemma_be_bytes_len(inner.len(), 2);
    assert(data.subrange(0, 2) =~= be_bytes(inner.len(), 2));
    assert(data.subrange(2, 2 + inner.len() as int) =~= inner);
    lemma_run(data, 0, inner, 2);
    assert(inner.subrange(0, 2) =~= be_bytes(grease, 2));
    assert(inner.subrange(2, 4) =~= be_bytes(1, 2));
    assert(inner.subrange(4, 5) =~= seq![0u8]);
    lemma_run(inner, 2, seq![0u8], 2);
    lemma_value_of_bytes(grease, 2);
    assert(inner.skip(5) =~= rest);
    assert(rest.subrange(0, 2) =~= be_bytes(GROUP_X25519_MLKEM768 as nat, 2));
    assert(rest.subrange(2, 4) =~= be_bytes(hybrid.len(), 2));
    assert(rest.subrange(4, 1220) =~= hybrid);
    lemma_run(rest, 2, hybrid, 2);
    lemma_value_of_bytes(GROUP_X25519_MLKEM768 as nat, 2);
    assert(hybrid.skip(1184) =~= public);
    assert(x25519_in(GROUP_X25519_MLKEM768 as nat, hybrid) == Some(public));
    assert(first_share(rest) == Some(public));
    assert(first_share(inner) == Some(public));
}

// ---------------------------------------------------------------------------
// The ClientHello
// ---------------------------------------------------------------------------

pub(super) proof fn lemma_u16s_len(values: Seq<u16>)
    ensures
        u16s_wire(values).len() == 2 * values.len(),
    decreases values.len(),
{
    if values.len() > 0 {
        lemma_u16s_len(values.drop_last());
        lemma_be_bytes_len(values.last() as nat, 2);
    }
}

/// What is read from a ClientHello that was made for these values.
pub open spec fn client_parts(
    random: Seq<u8>,
    session_id: Seq<u8>,
    sni: Seq<char>,
    public: Seq<u8>,
) -> ClientHelloParts {
    ClientHelloParts {
        random,
        session_id,
        sni: Some(sni),
        x25519_public: Some(public),
        alpn: seq![ALPN_H2@, ALPN_HTTP11@],
    }
}

pub(super) proof fn lemma_message_body(typ: u8, body: Seq<u8>)
    requires
        body.len() < 0x100_0000,
    ensures
        body_of(message_wire(typ, body)) == Some(body),
        run_end(message_wire(typ, body), 1, 3) == Some(4 + body.len() as int),
        message_wire(typ, body)[0] == typ,
        message_wire(typ, body).len() == 4 + body.len(),
{
    let msg = message_wire(typ, body);
    lemma_be_range();
    lemma_be_bytes_len(body.len(), 3);
    assert(msg.subrange(1, 4) =~= be_bytes(body.len(), 3));
    assert(msg.subrange(4, 4 + body.len() as int) =~= body);
    lemma_run(msg, 1, body, 3);
}

/// A ClientHello is read back as it was meant, whatever its random bytes are.
/// It has to fit in a record.
#[verifier::spinoff_prover]
#[verifier::rlimit(40)]
pub(super) proof fn lemma_client_hello(
    random: Seq<u8>,
    session_id: Seq<u8>,
    sni: Seq<char>,
    public: Seq<u8>,
    noise: HelloNoise,
)
    requires
        random.len() == 32,
        session_id.len() == 32,
        public.len() == 32,
        mlkem768_key(noise.mlkem_seed@).len() == 1184,
        client_hello_wire(random, session_id, sni, public, noise).len() < 0x1_0000,
    ensures
        client_hello_in(client_hello_wire(random, session_id, sni, public, noise)) == Some(
            client_parts(random, session_id, sni, public),
        ),
        extension_types_in(client_hello_wire(random, session_id, sni, public, noise)) == Some(
            types_of(hello_extensions(vstd::utf8::encode_utf8(sni), public, noise)),
        ),
{
    let host = vstd::utf8::encode_utf8(sni);
    let grease = grease_pair_of(noise.first_grease, noise.last_grease);
    let suites = be_bytes(grease.0, 2) + u16s_wire(CHROME_CIPHERS@);
    let list = hello_extensions(host, public, noise);
    let extensions = entries_wire(list);
    let body = client_hello_body(random, session_id, host, public, noise);
    let msg = message_wire(1, body);
    lemma_be_range();
    lemma_be_bytes_len(grease.0, 2);
    lemma_be_bytes_len(suites.len(), 2);
    lemma_be_bytes_len(extensions.len(), 2);
    lemma_u16s_len(CHROME_CIPHERS@);
    assert(suites.len() == 32);
    assert(body.len() == 2 + 32 + 1 + 32 + 34 + 2 + 2 + extensions.len());
    lemma_be_bytes_len(body.len(), 3);
    lemma_message_body(1, body);
    // The body, run by run.
    assert(be_bytes(32, 1) =~= seq![32u8]) by {
        assert(be_bytes(0, 0) =~= Seq::<u8>::empty());
        reveal_with_fuel(be_bytes, 2);
    }
    assert(body.subrange(2, 34) =~= random);
    assert(body.subrange(34, 35) =~= be_bytes(32, 1));
    assert(body.subrange(35, 67) =~= session_id);
    lemma_run(body, 34, session_id, 1);
    assert(body.subrange(67, 69) =~= be_bytes(32, 2));
    assert(body.subrange(69, 101) =~= suites);
    lemma_run(body, 67, suites, 2);
    assert(be_bytes(1, 1) =~= seq![1u8]) by {
        assert(be_bytes(0, 0) =~= Seq::<u8>::empty());
        reveal_with_fuel(be_bytes, 2);
    }
    assert(body.subrange(101, 102) =~= be_bytes(1, 1));
    assert(body.subrange(102, 103) =~= seq![0u8]);
    lemma_run(body, 101, seq![0u8], 1);
    assert(body.subrange(103, 105) =~= be_bytes(extensions.len(), 2));
    assert(body.subrange(105, 105 + extensions.len() as int) =~= extensions);
    lemma_run(body, 103, extensions, 2);
    assert(client_runs(body) == Some((session_id, extensions)));
    // The extensions.
    lemma_middle_types(host, public, grease, noise);
    lemma_in_order();
    lemma_shuffled(in_order(), noise.order@, 15);
    let order = shuffled(in_order(), noise.order@, 15);
    let middle = middle_extensions(host, public, grease, noise);
    assert forall|i: int| 0 <= i < list.len() implies (#[trigger] list[i]).0 < 0x1_0000 && list[i].1.len()
        < 0x1_0000 by {
        lemma_entry_len(list, i);
        if 1 <= i <= 16 {
            assert(list[i] == middle[order[i - 1] as int]);
        }
    }
    lemma_entries_roundtrip(list);
    lemma_find_extension(host, public, noise, 0);
    lemma_find_extension(host, public, noise, 6);
    lemma_find_extension(host, public, noise, 10);
    let k = order.index_of(0usize);
    assert(order.contains(0usize));
    lemma_entry_len(list, k + 1);
    assert(list[k + 1] == middle[0]);
    lemma_be_bytes_len(host.len(), 2);
    lemma_be_bytes_len((seq![0u8] + run_wire(host)).len(), 2);
    lemma_sni(sni);
    lemma_alpn();
    lemma_key_share(grease.0, noise.mlkem_seed@, public);
    assert(client_body(msg) == Some(body));
}

pub(super) proof fn lemma_hello_record(msg: Seq<u8>)
    ensures
        hello_record(msg).len() == 5 + msg.len(),
        msg.len() < 0x1_0000 ==> handshake_in(hello_record(msg)) == Some(msg),
{
    let record = hello_record(msg);
    lemma_be_range();
    lemma_be_bytes_len(msg.len(), 2);
    if msg.len() < 0x1_0000 {
        assert(record.subrange(3, 5) =~= be_bytes(msg.len(), 2));
        assert(record.subrange(5, 5 + msg.len() as int) =~= msg);
        lemma_run(record, 3, msg, 2);
    }
}

/// The session id stands at its offset, and a ClientHello with another one is
/// the same elsewhere: blanking it gives the one that was made with zeros.
pub proof fn law_session_id_place(
    random: Seq<u8>,
    session_id: Seq<u8>,
    sni: Seq<char>,
    public: Seq<u8>,
    noise: HelloNoise,
)
    requires
        random.len() == 32,
        session_id.len() == 32,
    ensures
        ({
            let hello = client_hello_wire(random, session_id, sni, public, noise);
            let zeros = Seq::new(32, |i: int| 0u8);
            &&& hello.len() >= SESSION_ID_OFFSET + SESSION_ID_LEN
            &&& hello.subrange(SESSION_ID_OFFSET as int, SESSION_ID_OFFSET + SESSION_ID_LEN) == session_id
            &&& blanked(hello) == client_hello_wire(random, zeros, sni, public, noise)
        }),
{
    let host = vstd::utf8::encode_utf8(sni);
    let hello = client_hello_wire(random, session_id, sni, public, noise);
    let zeros = Seq::new(32, |i: int| 0u8);
    let other = client_hello_wire(random, zeros, sni, public, noise);
    let body = client_hello_body(random, session_id, host, public, noise);
    let blank_body = client_hello_body(random, zeros, host, public, noise);
    lemma_be_bytes_len(body.len(), 3);
    assert(body.len() == blank_body.len());
    assert(hello.subrange(39, 71) =~= session_id);
    assert(blanked(hello) =~= other);
}

// ---------------------------------------------------------------------------
// The ServerHello
// ---------------------------------------------------------------------------

/// Every extension is one of the two, and there is one of each.
proof fn lemma_server_list(public: Seq<u8>, order: Seq<u16>)
    ensures
        ({
            let list = ordered_extensions(public, order);
            &&& forall|i: int|
                0 <= i < list.len() ==> (#[trigger] list[i] == server_versions() || list[i] == server_share(public))
            &&& order.contains(EXT_KEY_SHARE) ==> list.contains(server_share(public))
        }),
    decreases order.len(),
{
    if order.len() > 0 {
        let before = order.drop_last();
        lemma_server_list(public, before);
        let list = ordered_extensions(public, order);
        let old_list = ordered_extensions(public, before);
        if order.contains(EXT_KEY_SHARE) {
            if order.last() == EXT_KEY_SHARE {
                assert(list[list.len() - 1] == server_share(public));
            } else {
                let k = order.index_of(EXT_KEY_SHARE);
                assert(before[k] == EXT_KEY_SHARE);
                assert(old_list.contains(server_share(public)));
                let m = old_list.index_of(server_share(public));
                assert(list[m] == server_share(public));
            }
        }
    }
}

proof fn lemma_last_share(list: Seq<(nat, Seq<u8>)>, share: Seq<u8>)
    requires
        list.contains((EXT_KEY_SHARE as nat, share)),
        forall|i: int|
            0 <= i < list.len() && (#[trigger] list[i]).0 == EXT_KEY_SHARE ==> list[i].1 == share,
    ensures
        last_of(list, EXT_KEY_SHARE as nat) == Some(share),
    decreases list.len(),
{
    if list.last().0 == EXT_KEY_SHARE {
        assert(list[list.len() - 1].1 == share);
    } else {
        let k = list.index_of((EXT_KEY_SHARE as nat, share));
        let before = list.drop_last();
        assert(before[k] == list[k]);
        assert forall|i: int| 0 <= i < before.len() && (#[trigger] before[i]).0 == EXT_KEY_SHARE implies before[i].1
            == share by {
            assert(before[i] == list[i]);
        }
        lemma_last_share(before, share);
    }
}

/// A ServerHello reads back as it was written, with the extensions in the
/// order that was asked for, where its lengths fit and its random bytes are
/// not those of a HelloRetryRequest.
#[verifier::spinoff_prover]
#[verifier::rlimit(40)]
pub proof fn law_server_hello_reads_back(
    random: Seq<u8>,
    session_id: Seq<u8>,
    cipher: u16,
    public: Seq<u8>,
    order: Seq<u16>,
)
    requires
        random.len() == 32,
        random != HRR_RANDOM@,
        session_id.len() <= 255,
        public.len() == 32,
        entries_wire(server_extension_list(public, order)).len() < 0x1_0000,
    ensures
        server_hello_in(message_wire(2, server_hello_body(random, session_id, cipher, public, order))) == Some(
            ServerHelloParts {
                random,
                session_id,
                cipher: cipher as nat,
                extensions: types_of(server_extension_list(public, order)),
                x25519_public: Some(public),
            },
        ),
{
    let list = server_extension_list(public, order);
    let extensions = entries_wire(list);
    let body = server_hello_body(random, session_id, cipher, public, order);
    let n = session_id.len() as int;
    lemma_be_range();
    lemma_be_bytes_len(session_id.len(), 1);
    lemma_be_bytes_len(cipher as nat, 2);
    lemma_be_bytes_len(extensions.len(), 2);
    assert(body.len() == 2 + 32 + 1 + n + 2 + 1 + 2 + extensions.len());
    lemma_message_body(2, body);
    assert(body.subrange(2, 34) =~= random);
    assert(body.subrange(34, 35) =~= be_bytes(session_id.len(), 1));
    assert(body.subrange(35, 35 + n) =~= session_id);
    lemma_run(body, 34, session_id, 1);
    assert(body.subrange(35 + n, 37 + n) =~= be_bytes(cipher as nat, 2));
    lemma_value_of_bytes(cipher as nat, 2);
    assert(body.subrange(38 + n, 40 + n) =~= be_bytes(extensions.len(), 2));
    assert(body.subrange(40 + n, 40 + n + extensions.len()) =~= extensions);
    lemma_run(body, 38 + n, extensions, 2);
    assert(server_marks(body) == Some((35 + n, body.len() as int)));
    // The extensions.
    lemma_server_list(public, order);
    let asked = ordered_extensions(public, order);
    let share = server_share(public);
    let first = if order.contains(EXT_SUPPORTED_VERSIONS) {
        asked
    } else {
        asked.push(server_versions())
    };
    assert(list.contains(share)) by {
        if order.contains(EXT_KEY_SHARE) {
            let k = asked.index_of(share);
            assert(list[k] == share);
        } else {
            assert(list[list.len() - 1] == share);
        }
    }
    assert forall|i: int| 0 <= i < list.len() implies (#[trigger] list[i] == server_versions() || list[i]
        == share) by {
        if i < asked.len() {
            assert(list[i] == asked[i]);
        }
    }
    assert forall|i: int| 0 <= i < list.len() implies (#[trigger] list[i]).0 < 0x1_0000 && list[i].1.len()
        < 0x1_0000 by {
        lemma_entry_len(list, i);
        assert(list[i] == server_versions() || list[i] == share);
    }
    lemma_entries_roundtrip(list);
    assert(share == (EXT_KEY_SHARE as nat, share.1));
    lemma_last_share(list, share.1);
    let data = share.1;
    lemma_be_bytes_len(GROUP_X25519 as nat, 2);
    lemma_be_bytes_len(32, 2);
    assert(data.subrange(0, 2) =~= be_bytes(GROUP_X25519 as nat, 2));
    lemma_value_of_bytes(GROUP_X25519 as nat, 2);
    assert(data.subrange(2, 4) =~= be_bytes(32, 2));
    assert(data.subrange(4, 36) =~= public);
    lemma_run(data, 2, public, 2);
    assert(server_share_in(data) == Some(public));
}

} // verus!
