//! What every ClientHello looks like, whatever its random bytes are: its
//! length, where its fields stand, and which extensions it has.

use vstd::prelude::*;

use super::hello::{
    client_hello_in, extension_types_in, handshake_in, run_end, types_of, ALPN_H2, ALPN_HTTP11, GROUP_X25519,
    GROUP_X25519_MLKEM768,
};
use super::hello_build::{
    alpn_wire, client_hello_body, client_hello_wire, ech_len, ech_wire, entries_wire, grease_pair_of, grease_spec,
    grease_value, hello_extensions, hello_record, in_order, key_share_wire, middle_extensions, names_wire, run_wire,
    shares_of, shuffled, sni_wire, swapped, u16s_wire, HelloNoise, CHROME_CIPHERS, GROUP_SECP256R1,
    GROUP_SECP384R1, SIGNATURE_ALGORITHMS,
};
use super::hello_laws::{
    client_parts, law_hello_shape, lemma_client_hello, lemma_hello_record, lemma_in_order, lemma_shuffled,
    lemma_u16s_len, permuted,
};
use crate::crypto::mlkem768_key;
use crate::wire::{be_bytes, be_value, lemma_be_bytes_len, lemma_be_range, lemma_value_of_bytes};

verus! {

// ---------------------------------------------------------------------------
// Sums
// ---------------------------------------------------------------------------

spec fn total(s: Seq<nat>) -> nat
    decreases s.len(),
{
    if s.len() == 0 {
        0
    } else {
        total(s.drop_last()) + s.last()
    }
}

proof fn lemma_total_update(s: Seq<nat>, i: int, v: nat)
    requires
        0 <= i < s.len(),
    ensures
        total(s.update(i, v)) + s[i] == total(s) + v,
    decreases s.len(),
{
    if i == s.len() - 1 {
        assert(s.update(i, v).drop_last() =~= s.drop_last());
    } else {
        assert(s.update(i, v).drop_last() =~= s.drop_last().update(i, v));
        lemma_total_update(s.drop_last(), i, v);
    }
}

/// What stands at the places of `s`.
spec fn picked(w: Seq<nat>, s: Seq<usize>) -> Seq<nat> {
    Seq::new(s.len(), |k: int| w[s[k] as int])
}

/// A shuffle does not change a sum.
proof fn lemma_total_shuffled(w: Seq<nat>, s: Seq<usize>, picks: Seq<u8>, i: nat)
    requires
        s.len() == 16,
        i < 16,
    ensures
        total(picked(w, shuffled(s, picks, i))) == total(picked(w, s)),
    decreases i,
{
    if i > 0 {
        let j = (picks[i as int] as nat % (i + 1)) as int;
        let t = swapped(s, i as int, j);
        let p = picked(w, s);
        let half = p.update(i as int, p[j]);
        assert(picked(w, t) =~= half.update(j, p[i as int]));
        lemma_total_update(p, i as int, p[j]);
        lemma_total_update(half, j, p[i as int]);
        lemma_total_shuffled(w, t, picks, (i - 1) as nat);
    }
}

/// How many bytes each entry takes.
spec fn sizes(list: Seq<(nat, Seq<u8>)>) -> Seq<nat> {
    Seq::new(list.len(), |i: int| 4 + list[i].1.len())
}

proof fn lemma_entries_len(list: Seq<(nat, Seq<u8>)>)
    ensures
        entries_wire(list).len() == total(sizes(list)),
    decreases list.len(),
{
    if list.len() > 0 {
        lemma_entries_len(list.drop_last());
        assert(sizes(list).drop_last() =~= sizes(list.drop_last()));
        lemma_be_bytes_len(list.last().0, 2);
        lemma_be_bytes_len(list.last().1.len(), 2);
    }
}

proof fn lemma_total_ends(a: nat, m: Seq<nat>, b: nat)
    ensures
        total(seq![a] + m + seq![b]) == a + total(m) + b,
    decreases m.len(),
{
    let all = seq![a] + m + seq![b];
    assert(all.drop_last() =~= seq![a] + m);
    lemma_total_head(a, m);
}

proof fn lemma_total_head(a: nat, m: Seq<nat>)
    ensures
        total(seq![a] + m) == a + total(m),
    decreases m.len(),
{
    if m.len() == 0 {
        assert(seq![a] + m =~= seq![a]);
        assert(seq![a].drop_last() =~= Seq::<nat>::empty());
        assert(total(Seq::<nat>::empty()) == 0);
    } else {
        assert((seq![a] + m).drop_last() =~= seq![a] + m.drop_last());
        lemma_total_head(a, m.drop_last());
    }
}

// ---------------------------------------------------------------------------
// The length
// ---------------------------------------------------------------------------

proof fn lemma_run_len(data: Seq<u8>)
    ensures
        run_wire(data).len() == 2 + data.len(),
{
    lemma_be_bytes_len(data.len(), 2);
}

proof fn lemma_alpn_lens()
    ensures
        alpn_wire(seq![ALPN_H2@, ALPN_HTTP11@]).len() == 14,
        alpn_wire(seq![ALPN_H2@]).len() == 5,
{
    let a = ALPN_H2@;
    let b = ALPN_HTTP11@;
    assert(seq![a, b].drop_last() =~= seq![a]);
    assert(seq![a].drop_last() =~= Seq::<Seq<u8>>::empty());
    reveal_with_fuel(names_wire, 3);
    lemma_be_bytes_len(2, 1);
    lemma_be_bytes_len(8, 1);
    assert(a.len() == 2 && b.len() == 8);
    assert(names_wire(Seq::<Seq<u8>>::empty()).len() == 0);
    assert(names_wire(seq![a]).len() == 3);
    assert(names_wire(seq![a, b]).len() == 12);
    lemma_run_len(names_wire(seq![a]));
    lemma_run_len(names_wire(seq![a, b]));
}

proof fn lemma_key_share_len(grease: nat, seed: Seq<u8>, public: Seq<u8>)
    requires
        mlkem768_key(seed).len() == 1184,
        public.len() == 32,
    ensures
        key_share_wire(grease, seed, public).len() == 1263,
{
    let list = shares_of(grease, seed, public);
    lemma_entries_len(list);
    let s = sizes(list);
    assert(s =~= seq![5nat, 1220nat, 36nat]);
    assert(s.drop_last() =~= seq![5nat, 1220nat]);
    assert(s.drop_last().drop_last() =~= seq![5nat]);
    assert(s.drop_last().drop_last().drop_last() =~= Seq::<nat>::empty());
    reveal_with_fuel(total, 4);
    lemma_run_len(entries_wire(list));
}

/// The extensions between the two of GREASE take so many bytes.
#[verifier::spinoff_prover]
#[verifier::rlimit(40)]
proof fn lemma_middle_len(host: Seq<u8>, public: Seq<u8>, grease: (nat, nat), noise: HelloNoise)
    requires
        mlkem768_key(noise.mlkem_seed@).len() == 1184,
        public.len() == 32,
    ensures
        total(sizes(middle_extensions(host, public, grease, noise))) == 1443 + host.len() + ech_len(noise.ech_size),
{
    let middle = middle_extensions(host, public, grease, noise);
    let groups = seq![
        grease.0 as u16,
        GROUP_X25519_MLKEM768,
        GROUP_X25519,
        GROUP_SECP256R1,
        GROUP_SECP384R1,
    ];
    let e = ech_len(noise.ech_size);
    lemma_run_len(host);
    lemma_run_len(seq![0u8] + run_wire(host));
    lemma_u16s_len(groups);
    lemma_run_len(u16s_wire(groups));
    lemma_alpn_lens();
    lemma_u16s_len(SIGNATURE_ALGORITHMS@);
    lemma_run_len(u16s_wire(SIGNATURE_ALGORITHMS@));
    lemma_key_share_len(grease.0, noise.mlkem_seed@, public);
    lemma_u16s_len(seq![grease.1 as u16, 0x0304u16, 0x0303u16]);
    lemma_run_len(noise.ech_key@);
    lemma_run_len(noise.ech_payload@.take(e as int));
    assert(sni_wire(host).len() == 5 + host.len());
    assert(ech_wire(noise.ech_config, noise.ech_key@, noise.ech_payload@.take(e as int)).len() == 42 + e);
    let want = seq![
        9 + host.len(),
        4nat,
        5nat,
        16nat,
        6nat,
        4nat,
        18nat,
        9nat,
        22nat,
        4nat,
        1267nat,
        6nat,
        11nat,
        7nat,
        9nat,
        46 + e,
    ];
    assert(sizes(middle) =~= want);
    lemma_total_sixteen(want);
}

proof fn lemma_total_sixteen(s: Seq<nat>)
    requires
        s.len() == 16,
    ensures
        total(s) == s[0] + s[1] + s[2] + s[3] + s[4] + s[5] + s[6] + s[7] + s[8] + s[9] + s[10] + s[11] + s[12] + s[13]
            + s[14] + s[15],
{
    reveal_with_fuel(total, 17);
}

/// A ClientHello is as long as its name and the payload of its ECH extension
/// make it.
pub open spec fn hello_len(sni: Seq<char>, noise: HelloNoise) -> nat {
    1562 + vstd::utf8::encode_utf8(sni).len() + ech_len(noise.ech_size)
}

proof fn lemma_extensions_len(host: Seq<u8>, public: Seq<u8>, noise: HelloNoise)
    requires
        mlkem768_key(noise.mlkem_seed@).len() == 1184,
        public.len() == 32,
    ensures
        entries_wire(hello_extensions(host, public, noise)).len() == 1453 + host.len() + ech_len(noise.ech_size),
{
    let grease = grease_pair_of(noise.first_grease, noise.last_grease);
    let middle = middle_extensions(host, public, grease, noise);
    let order = shuffled(in_order(), noise.order@, 15);
    let list = hello_extensions(host, public, noise);
    lemma_in_order();
    lemma_shuffled(in_order(), noise.order@, 15);
    lemma_entries_len(list);
    let w = sizes(middle);
    assert(middle.len() == 16);
    assert(sizes(list) =~= seq![5nat] + picked(w, order) + seq![5nat]);
    lemma_total_ends(5, picked(w, order), 5);
    lemma_total_shuffled(w, in_order(), noise.order@, 15);
    assert(picked(w, in_order()) =~= w);
    lemma_middle_len(host, public, grease, noise);
}

/// The length of a ClientHello. It varies with the name alone, but for the
/// four sizes of its ECH payload.
pub proof fn law_hello_length(
    random: Seq<u8>,
    session_id: Seq<u8>,
    sni: Seq<char>,
    public: Seq<u8>,
    noise: HelloNoise,
)
    requires
        random.len() == 32,
        session_id.len() == 32,
        public.len() == 32,
        mlkem768_key(noise.mlkem_seed@).len() == 1184,
    ensures
        client_hello_wire(random, session_id, sni, public, noise).len() == hello_len(sni, noise),
        144 <= ech_len(noise.ech_size) <= 240,
{
    let host = vstd::utf8::encode_utf8(sni);
    let grease = grease_pair_of(noise.first_grease, noise.last_grease);
    let extensions = entries_wire(hello_extensions(host, public, noise));
    let suites = be_bytes(grease.0, 2) + u16s_wire(CHROME_CIPHERS@);
    let body = client_hello_body(random, session_id, host, public, noise);
    lemma_extensions_len(host, public, noise);
    lemma_be_bytes_len(grease.0, 2);
    lemma_u16s_len(CHROME_CIPHERS@);
    lemma_run_len(suites);
    lemma_run_len(extensions);
    lemma_be_bytes_len(body.len(), 3);
}

// ---------------------------------------------------------------------------
// The fields
// ---------------------------------------------------------------------------

/// Where the fields of a ClientHello stand, and that its length fields tell
/// the truth. It has to fit in a record.
#[verifier::spinoff_prover]
#[verifier::rlimit(40)]
pub proof fn law_hello_layout(
    random: Seq<u8>,
    session_id: Seq<u8>,
    sni: Seq<char>,
    public: Seq<u8>,
    noise: HelloNoise,
)
    requires
        random.len() == 32,
        session_id.len() == 32,
        public.len() == 32,
        mlkem768_key(noise.mlkem_seed@).len() == 1184,
        hello_len(sni, noise) < 0x1_0000,
    ensures
        ({
            let h = client_hello_wire(random, session_id, sni, public, noise);
            &&& h.len() == hello_len(sni, noise)
            &&& h[0] == 1
            &&& be_value(h.subrange(1, 4)) == h.len() - 4
            &&& h.subrange(4, 6) == seq![3u8, 3]
            &&& h.subrange(6, 38) == random
            &&& h[38] == 32
            &&& h.subrange(39, 71) == session_id
            &&& h.subrange(71, 73) == seq![0u8, 32]
            &&& grease_spec(be_value(h.subrange(73, 75)))
            &&& h.subrange(75, 105) == u16s_wire(CHROME_CIPHERS@)
            &&& h.subrange(75, 81) == seq![0x13u8, 1, 0x13, 2, 0x13, 3]
            &&& h.subrange(105, 107) == seq![1u8, 0]
            &&& be_value(h.subrange(107, 109)) == h.len() - 109
            &&& h.skip(109) == entries_wire(hello_extensions(vstd::utf8::encode_utf8(sni), public, noise))
        }),
{
    let host = vstd::utf8::encode_utf8(sni);
    let grease = grease_pair_of(noise.first_grease, noise.last_grease);
    let extensions = entries_wire(hello_extensions(host, public, noise));
    let ciphers = u16s_wire(CHROME_CIPHERS@);
    let body = client_hello_body(random, session_id, host, public, noise);
    let h = client_hello_wire(random, session_id, sni, public, noise);
    law_hello_length(random, session_id, sni, public, noise);
    lemma_extensions_len(host, public, noise);
    lemma_be_range();
    lemma_be_bytes_len(grease.0, 2);
    lemma_u16s_len(CHROME_CIPHERS@);
    lemma_be_bytes_len(32, 2);
    lemma_be_bytes_len(extensions.len(), 2);
    lemma_be_bytes_len(body.len(), 3);
    assert(ciphers.len() == 30);
    assert(h.subrange(1, 4) =~= be_bytes(body.len(), 3));
    lemma_value_of_bytes(body.len(), 3);
    assert(h.subrange(4, 6) =~= seq![3u8, 3]);
    assert(h.subrange(6, 38) =~= random);
    assert(h.subrange(39, 71) =~= session_id);
    assert(h.subrange(71, 73) =~= be_bytes(32, 2));
    lemma_two_bytes(0, 32);
    assert(h.subrange(73, 75) =~= be_bytes(grease.0, 2));
    lemma_value_of_bytes(grease.0, 2);
    assert(grease.0 == grease_value((noise.first_grease % 16) as nat));
    assert(h.subrange(75, 105) =~= ciphers);
    lemma_first_ciphers();
    assert(h.subrange(75, 81) =~= ciphers.take(6));
    assert(h.subrange(105, 107) =~= seq![1u8, 0]);
    assert(h.subrange(107, 109) =~= be_bytes(extensions.len(), 2));
    lemma_value_of_bytes(extensions.len(), 2);
    assert(h.skip(109) =~= extensions);
}

proof fn lemma_two_bytes(a: u8, b: u8)
    ensures
        be_bytes((a * 256 + b) as nat, 2) == seq![a, b],
{
    reveal_with_fuel(be_bytes, 3);
    assert(be_bytes((a * 256 + b) as nat, 2) =~= seq![a, b]);
}

proof fn lemma_u16s_head(values: Seq<u16>, n: int)
    requires
        0 <= n <= values.len(),
    ensures
        u16s_wire(values).take(2 * n) == u16s_wire(values.take(n)),
    decreases values.len(),
{
    lemma_u16s_len(values);
    lemma_u16s_len(values.take(n));
    if n == values.len() {
        assert(values.take(n) =~= values);
        assert(u16s_wire(values).take(2 * n) =~= u16s_wire(values));
    } else {
        let less = values.drop_last();
        lemma_u16s_len(less);
        lemma_u16s_head(less, n);
        assert(less.take(n) =~= values.take(n));
        assert(u16s_wire(values).take(2 * n) =~= u16s_wire(less).take(2 * n));
    }
}

proof fn lemma_first_ciphers()
    ensures
        u16s_wire(CHROME_CIPHERS@).take(6) == seq![0x13u8, 1, 0x13, 2, 0x13, 3],
{
    let three = CHROME_CIPHERS@.take(3);
    lemma_u16s_head(CHROME_CIPHERS@, 3);
    assert(three =~= seq![0x1301u16, 0x1302u16, 0x1303u16]);
    assert(three.drop_last() =~= seq![0x1301u16, 0x1302u16]);
    assert(three.drop_last().drop_last() =~= seq![0x1301u16]);
    assert(three.drop_last().drop_last().drop_last() =~= Seq::<u16>::empty());
    reveal_with_fuel(u16s_wire, 4);
    lemma_two_bytes(0x13, 1);
    lemma_two_bytes(0x13, 2);
    lemma_two_bytes(0x13, 3);
    assert(u16s_wire(three) =~= seq![0x13u8, 1, 0x13, 2, 0x13, 3]);
}

// ---------------------------------------------------------------------------
// What is read from it
// ---------------------------------------------------------------------------

/// The types of the sixteen extensions between those of GREASE, before they
/// are shuffled.
pub open spec fn middle_types() -> Seq<nat> {
    seq![0nat, 23, 0xff01, 10, 11, 35, 16, 5, 13, 18, 51, 45, 43, 27, 17513, 0xfe0d]
}

/// The extension types that are read from a ClientHello are those that it was
/// made with: two different values of GREASE at the ends, and between them
/// each of the sixteen once, as the order that was drawn has it. It has to fit
/// in a record.
pub proof fn law_hello_types(
    random: Seq<u8>,
    session_id: Seq<u8>,
    sni: Seq<char>,
    public: Seq<u8>,
    noise: HelloNoise,
)
    requires
        random.len() == 32,
        session_id.len() == 32,
        public.len() == 32,
        mlkem768_key(noise.mlkem_seed@).len() == 1184,
        hello_len(sni, noise) < 0x1_0000,
    ensures
        ({
            let order = shuffled(in_order(), noise.order@, 15);
            let list = hello_extensions(vstd::utf8::encode_utf8(sni), public, noise);
            &&& extension_types_in(client_hello_wire(random, session_id, sni, public, noise)) matches Some(types)
            &&& types == types_of(list)
            &&& types.len() == 18
            &&& grease_spec(types[0])
            &&& grease_spec(types[17])
            &&& types[0] != types[17]
            &&& permuted(order)
            &&& forall|k: int| 0 <= k < 16 ==> types[k + 1] == middle_types()[(#[trigger] order[k]) as int]
        }),
{
    let host = vstd::utf8::encode_utf8(sni);
    let list = hello_extensions(host, public, noise);
    assert(extension_types_in(client_hello_wire(random, session_id, sni, public, noise)) == Some(types_of(list))) by {
        law_hello_length(random, session_id, sni, public, noise);
        lemma_client_hello(random, session_id, sni, public, noise);
    }
    lemma_shuffled_types(host, public, noise);
}

proof fn lemma_middle_types(host: Seq<u8>, public: Seq<u8>, grease: (nat, nat), noise: HelloNoise)
    ensures
        middle_extensions(host, public, grease, noise).len() == 16,
        types_of(middle_extensions(host, public, grease, noise)) == middle_types(),
{
    assert(types_of(middle_extensions(host, public, grease, noise)) =~= middle_types());
}

proof fn lemma_shuffled_types(host: Seq<u8>, public: Seq<u8>, noise: HelloNoise)
    ensures
        ({
            let order = shuffled(in_order(), noise.order@, 15);
            let types = types_of(hello_extensions(host, public, noise));
            &&& types.len() == 18
            &&& grease_spec(types[0])
            &&& grease_spec(types[17])
            &&& types[0] != types[17]
            &&& permuted(order)
            &&& forall|k: int| 0 <= k < 16 ==> types[k + 1] == middle_types()[(#[trigger] order[k]) as int]
        }),
{
    let grease = grease_pair_of(noise.first_grease, noise.last_grease);
    let middle = middle_extensions(host, public, grease, noise);
    let order = shuffled(in_order(), noise.order@, 15);
    let list = hello_extensions(host, public, noise);
    let types = types_of(list);
    law_hello_shape(host, public, noise);
    lemma_middle_types(host, public, grease, noise);
    assert forall|k: int| 0 <= k < 16 implies types[k + 1] == middle_types()[(#[trigger] order[k]) as int] by {
        let at = order[k] as int;
        assert(list[k + 1] == middle[at]);
        assert(types_of(middle)[at] == middle[at].0);
    }
}

/// A ClientHello in a record reads back as it was meant, whatever its random
/// bytes are and whatever follows the record. It has to fit in the record.
pub proof fn law_hello_record_reads_back(
    random: Seq<u8>,
    session_id: Seq<u8>,
    sni: Seq<char>,
    public: Seq<u8>,
    noise: HelloNoise,
    more: Seq<u8>,
)
    requires
        random.len() == 32,
        session_id.len() == 32,
        public.len() == 32,
        mlkem768_key(noise.mlkem_seed@).len() == 1184,
        hello_len(sni, noise) < 0x1_0000,
    ensures
        ({
            let hello = client_hello_wire(random, session_id, sni, public, noise);
            &&& handshake_in(hello_record(hello) + more) == Some(hello)
            &&& client_hello_in(hello) == Some(client_parts(random, session_id, sni, public))
        }),
{
    let hello = client_hello_wire(random, session_id, sni, public, noise);
    let record = hello_record(hello);
    law_hello_length(random, session_id, sni, public, noise);
    lemma_client_hello(random, session_id, sni, public, noise);
    lemma_hello_record(hello);
    lemma_be_bytes_len(hello.len(), 2);
    assert((record + more).subrange(3, 5) =~= record.subrange(3, 5));
    assert(run_end(record + more, 3, 2) == run_end(record, 3, 2));
    assert((record + more).subrange(5, record.len() as int) =~= record.subrange(5, record.len() as int));
}

} // verus!
