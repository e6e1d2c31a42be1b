//! The messages of the handshake, byte by byte, and what each side makes of
//! the other's.

use vstd::prelude::*;

use super::cert::{leaf_signature, HmacLeaf, LeafError};
use super::hello_build::{
    build_server_hello_handshake, grease_pair_of, handshake_msg, hello_extensions, in_order,
    is_grease, middle_extensions, record_of_hello, shuffled, u16s_wire, HelloNoise, CHROME_CIPHERS,
};
use super::hello_laws::law_hello_shape;
use super::suite::{finished_mac, opened_record, RecordError, Suite};
use super::tls_client::{ClientHandshake, ClientPhase, ClientStep};
use super::tls_messages::{certificate_msg, certificate_verify_msg, TlsError};
use super::tls_server::{ServerStep, ServerWait};
use crate::crypto::mlkem768_key;
use crate::wire::{be_bytes, be_value};

verus! {

/// A number in two bytes.
pub open spec fn two(n: int) -> Seq<u8> {
    seq![(n / 256) as u8, (n % 256) as u8]
}

/// A number in three bytes.
pub open spec fn three(n: int) -> Seq<u8> {
    seq![(n / 65536) as u8, (n / 256 % 256) as u8, (n % 256) as u8]
}

proof fn lemma_two(n: nat)
    requires
        n < 0x1_0000,
    ensures
        be_bytes(n, 2) == two(n as int),
{
    reveal_with_fuel(be_bytes, 3);
    assert(be_bytes(n, 2) =~= two(n as int));
}

proof fn lemma_three(n: nat)
    requires
        n < 0x100_0000,
    ensures
        be_bytes(n, 3) == three(n as int),
{
    reveal_with_fuel(be_bytes, 4);
    assert(n as int / 256 / 256 == n as int / 65536);
    assert(be_bytes(n, 3) =~= three(n as int));
}

/// A handshake message is its type, its length and its body; a hello goes
/// into a record of version 3.1.
pub proof fn law_message(typ: u8, body: &[u8], msg: Vec<u8>, hello: &[u8], record: Vec<u8>)
    requires
        call_ensures(handshake_msg, (typ, body), msg),
        body@.len() < 0x100_0000,
        call_ensures(record_of_hello, (hello,), record),
        hello@.len() < 0x1_0000,
    ensures
        msg@ == seq![typ] + three(body@.len() as int) + body@,
        record@ == seq![0x16u8, 3, 1] + two(hello@.len() as int) + hello@,
{
    lemma_three(body@.len());
    lemma_two(hello@.len());
    assert(record@ =~= seq![0x16u8, 3, 1] + two(hello@.len() as int) + hello@);
}

/// The values of GREASE have two equal bytes that end in 0xa.
pub proof fn law_grease(value: u16, yes: bool)
    requires
        call_ensures(is_grease, (value,), yes),
    ensures
        yes <==> value as int / 256 == value as int % 256 && value as int % 16 == 10,
{
    let v = value as int;
    if yes {
        let i = choose|i: nat| i < 16 && value as nat == #[trigger] super::hello_build::grease_value(i);
        assert(v == 0x0a0a + 0x1010 * i);
    }
    if v / 256 == v % 256 && v % 16 == 10 {
        let i = ((v % 256) / 16) as nat;
        assert(v == super::hello_build::grease_value(i));
    }
}

/// The extensions of a ClientHello but for the two at its ends, before they
/// are shuffled, byte by byte.
pub open spec fn chrome_extensions(
    host: Seq<u8>,
    public: Seq<u8>,
    first: int,
    last: int,
    mlkem: Seq<u8>,
    config: u8,
    ech_key: Seq<u8>,
    ech: Seq<u8>,
) -> Seq<(nat, Seq<u8>)> {
    seq![
        (0nat, two(host.len() as int + 3) + seq![0u8] + two(host.len() as int) + host),
        (23, seq![]),
        (0xff01, seq![0u8]),
        (10, seq![0u8, 10] + two(first) + seq![0x11u8, 0xec, 0, 0x1d, 0, 0x17, 0, 0x18]),
        (11, seq![1u8, 0]),
        (35, seq![]),
        (16, seq![0u8, 12, 2, 104, 50, 8, 104, 116, 116, 112, 47, 49, 46, 49]),
        (5, seq![1u8, 0, 0, 0, 0]),
        (13, seq![0u8, 16, 4, 3, 8, 4, 4, 1, 5, 3, 8, 5, 5, 1, 8, 6, 6, 1]),
        (18, seq![]),
        (
            51,
            seq![0x04u8, 0xed] + two(first) + seq![0u8, 1, 0, 0x11, 0xec, 0x04, 0xc0] + mlkem + public + seq![
                0u8,
                0x1d,
                0,
                32,
            ] + public,
        ),
        (45, seq![1u8, 1]),
        (43, seq![6u8] + two(last) + seq![3u8, 4, 3, 3]),
        (27, seq![2u8, 0, 2]),
        (17513, seq![0u8, 3, 2, 104, 50]),
        (0xfe0d, seq![0u8, 0, 1, 0, 1, config, 0, 32] + ech_key + two(ech.len() as int) + ech),
    ]
}

proof fn lemma_u16s(values: Seq<u16>)
    ensures
        u16s_wire(values).len() == 2 * values.len(),
        forall|i: int|
            0 <= i < values.len() ==> (#[trigger] values[i]) as int / 256 == u16s_wire(values)[2 * i]
                && values[i] as int % 256 == u16s_wire(values)[2 * i + 1],
    decreases values.len(),
{
    if values.len() > 0 {
        lemma_u16s(values.drop_last());
        lemma_two(values.last() as nat);
        let before = u16s_wire(values.drop_last());
        assert forall|i: int| 0 <= i < values.len() implies (#[trigger] values[i]) as int / 256 == u16s_wire(
            values,
        )[2 * i] && values[i] as int % 256 == u16s_wire(values)[2 * i + 1] by {
            if i < values.len() - 1 {
                assert(values.drop_last()[i] == values[i]);
                assert(u16s_wire(values)[2 * i] == before[2 * i]);
                assert(u16s_wire(values)[2 * i + 1] == before[2 * i + 1]);
            }
        }
    }
}

#[verifier::spinoff_prover]
#[verifier::rlimit(60)]
proof fn lemma_chrome(host: Seq<u8>, public: Seq<u8>, grease: (nat, nat), noise: HelloNoise)
    requires
        public.len() == 32,
        host.len() + 3 < 0x1_0000,
        grease.0 < 0x1_0000,
        grease.1 < 0x1_0000,
        mlkem768_key(noise.mlkem_seed@).len() == 1184,
    ensures
        middle_extensions(host, public, grease, noise) == chrome_extensions(
            host,
            public,
            grease.0 as int,
            grease.1 as int,
            mlkem768_key(noise.mlkem_seed@),
            noise.ech_config,
            noise.ech_key@,
            noise.ech_payload@.take(144 + 32 * (noise.ech_size as int % 4)),
        ),
{
    let mlkem = mlkem768_key(noise.mlkem_seed@);
    let payload = noise.ech_payload@.take(144 + 32 * (noise.ech_size as int % 4));
    let a = middle_extensions(host, public, grease, noise);
    let b = chrome_extensions(
        host,
        public,
        grease.0 as int,
        grease.1 as int,
        mlkem,
        noise.ech_config,
        noise.ech_key@,
        payload,
    );
    lemma_two(host.len());
    lemma_two(host.len() + 3);
    lemma_two(grease.0);
    lemma_two(grease.1);
    assert(a[0].1 =~= b[0].1) by {
        assert((seq![0u8] + super::hello_build::run_wire(host)).len() == host.len() + 3);
    }
    assert(a[1].1 =~= b[1].1);
    assert(a[3].1 =~= b[3].1) by {
        let list = seq![grease.0 as u16, 0x11ecu16, 0x001du16, 0x0017u16, 0x0018u16];
        lemma_u16s(list);
        lemma_two(10);
        let w = u16s_wire(list);
        assert(list[0] == grease.0 && list[1] == 0x11ec && list[2] == 0x1d && list[3] == 0x17 && list[4] == 0x18);
        assert(w[0] == list[0] as int / 256 && w[1] == list[0] as int % 256 && w[2] == list[1] as int / 256 && w[3]
            == list[1] as int % 256 && w[4] == list[2] as int / 256 && w[5] == list[2] as int % 256 && w[6] == list[3]
            as int / 256 && w[7] == list[3] as int % 256 && w[8] == list[4] as int / 256 && w[9] == list[4] as int
            % 256);
        assert(a[3].1 =~= two(10) + w);
    }
    assert(a[5].1 =~= b[5].1);
    assert(a[6].1 =~= b[6].1) by {
        lemma_two(12);
        reveal_with_fuel(super::hello_build::names_wire, 3);
        reveal_with_fuel(be_bytes, 2);
        let h2 = super::hello::ALPN_H2;
        let http = super::hello::ALPN_HTTP11;
        let names = seq![h2@, http@];
        assert(names.drop_last() =~= seq![h2@]);
        assert(names.drop_last().drop_last() =~= Seq::<Seq<u8>>::empty());
        let w = super::hello_build::names_wire(names);
        assert(w =~= seq![2u8, 104, 50, 8, 104, 116, 116, 112, 47, 49, 46, 49]);
        assert(a[6].1 =~= two(12) + w);
    }
    assert(a[8].1 =~= b[8].1) by {
        let list = super::hello_build::SIGNATURE_ALGORITHMS;
        lemma_u16s(list@);
        lemma_two(16);
        let w = u16s_wire(list@);
        assert(list@[0] == 0x0403 && list@[1] == 0x0804 && list@[2] == 0x0401 && list@[3] == 0x0503);
        assert(list@[4] == 0x0805 && list@[5] == 0x0501 && list@[6] == 0x0806 && list@[7] == 0x0601);
        assert(w =~= seq![4u8, 3, 8, 4, 4, 1, 5, 3, 8, 5, 5, 1, 8, 6, 6, 1]);
        assert(a[8].1 =~= two(16) + w);
    }
    assert(a[9].1 =~= b[9].1);
    assert(a[10].1 =~= b[10].1) by {
        let x = (grease.0, seq![0u8]);
        let y = (0x11ecnat, mlkem + public);
        let z = (0x1dnat, public);
        let list = seq![x, y, z];
        reveal_with_fuel(super::hello_build::entries_wire, 4);
        assert(list.drop_last() =~= seq![x, y]);
        assert(list.drop_last().drop_last() =~= seq![x]);
        assert(list.drop_last().drop_last().drop_last() =~= Seq::<(nat, Seq<u8>)>::empty());
        lemma_two(1);
        lemma_two(1216);
        lemma_two(32);
        lemma_two(0x11ec);
        lemma_two(0x1d);
        lemma_two(1261);
        let w = super::hello_build::entries_wire(list);
        assert(w =~= two(grease.0 as int) + seq![0u8, 1, 0, 0x11, 0xec, 0x04, 0xc0] + mlkem + public + seq![
            0u8,
            0x1d,
            0,
            32,
        ] + public);
        assert(w.len() == 1261);
        assert(a[10].1 =~= two(1261) + w);
    }
    assert(a[12].1 =~= b[12].1) by {
        let list = seq![grease.1 as u16, 0x0304u16, 0x0303u16];
        lemma_u16s(list);
        let w = u16s_wire(list);
        assert(list[0] == grease.1 && list[1] == 0x0304 && list[2] == 0x0303);
        assert(w[0] == list[0] as int / 256 && w[1] == list[0] as int % 256 && w[2] == list[1] as int / 256 && w[3]
            == list[1] as int % 256 && w[4] == list[2] as int / 256 && w[5] == list[2] as int % 256);
        assert(a[12].1 =~= seq![6u8] + w);
    }
    assert(a[14].1 =~= b[14].1) by {
        lemma_two(3);
        reveal_with_fuel(super::hello_build::names_wire, 2);
        reveal_with_fuel(be_bytes, 2);
        let h2 = super::hello::ALPN_H2;
        let names = seq![h2@];
        assert(names.drop_last() =~= Seq::<Seq<u8>>::empty());
        assert(super::hello_build::names_wire(names) =~= seq![2u8, 104, 50]);
    }
    assert(a[15].1 =~= b[15].1) by {
        lemma_two(32);
        lemma_two(payload.len());
    }
    assert(a =~= b);
}

/// The extensions of a ClientHello: each of Chrome's once, in the order that
/// was drawn, between two different ones of GREASE.
#[verifier::spinoff_prover]
#[verifier::rlimit(40)]
pub proof fn law_client_extensions(host: Seq<u8>, public: Seq<u8>, noise: HelloNoise, k: int)
    requires
        public.len() == 32,
        host.len() + 3 < 0x1_0000,
        mlkem768_key(noise.mlkem_seed@).len() == 1184,
        0 <= k < 16,
    ensures
        ({
            let first = 0x0a0a + 0x1010 * (noise.first_grease as int % 16);
            let list = hello_extensions(host, public, noise);
            let order = shuffled(in_order(), noise.order@, 15);
            let last = list[17].0 as int;
            &&& list.len() == 18
            &&& list[0] == (first as nat, seq![0u8])
            &&& list[17].1 == seq![0u8]
            &&& last != first && last % 256 == last / 256 && last % 16 == 10
            &&& super::hello_laws::permuted(order)
            &&& list[k + 1] == chrome_extensions(
                host,
                public,
                first,
                last,
                mlkem768_key(noise.mlkem_seed@),
                noise.ech_config,
                noise.ech_key@,
                noise.ech_payload@.take(144 + 32 * (noise.ech_size as int % 4)),
            )[order[k] as int]
        }),
{
    let grease = grease_pair_of(noise.first_grease, noise.last_grease);
    let i = (noise.first_grease % 16) as nat;
    let j = (noise.last_grease % 16) as nat;
    let other = if i == j {
        (i + 8) % 16
    } else {
        j
    };
    assert(other < 16);
    assert(grease.0 == 0x0a0a + 0x1010 * i);
    assert(grease.1 == 0x0a0a + 0x1010 * other);
    lemma_ends(host, public, noise);
    lemma_chrome(host, public, grease, noise);
}

proof fn lemma_ends(host: Seq<u8>, public: Seq<u8>, noise: HelloNoise)
    ensures
        ({
            let list = hello_extensions(host, public, noise);
            let grease = grease_pair_of(noise.first_grease, noise.last_grease);
            let middle = middle_extensions(host, public, grease, noise);
            let order = shuffled(in_order(), noise.order@, 15);
            &&& list.len() == 18
            &&& list[0] == (grease.0, seq![0u8])
            &&& list[17] == (grease.1, seq![0u8])
            &&& grease.0 != grease.1
            &&& super::hello_laws::permuted(order)
            &&& forall|k: int| 0 <= k < 16 ==> list[k + 1] == middle[(#[trigger] order[k]) as int]
        }),
{
    law_hello_shape(host, public, noise);
}

/// The suites that a ClientHello offers behind the one of GREASE.
pub proof fn law_ciphers()
    ensures
        u16s_wire(CHROME_CIPHERS@) == seq![
            0x13u8,
            1,
            0x13,
            2,
            0x13,
            3,
            0xc0,
            0x2b,
            0xc0,
            0x2f,
            0xc0,
            0x2c,
            0xc0,
            0x30,
            0xcc,
            0xa9,
            0xcc,
            0xa8,
            0xc0,
            0x13,
            0xc0,
            0x14,
            0,
            0x9c,
            0,
            0x9d,
            0,
            0x2f,
            0,
            0x35,
        ],
{
    let ciphers = CHROME_CIPHERS;
    lemma_u16s(ciphers@);
    let w = u16s_wire(ciphers@);
    let c = ciphers@;
    assert(c[0] == 0x1301 && c[1] == 0x1302 && c[2] == 0x1303 && c[3] == 0xc02b && c[4] == 0xc02f);
    assert(c[5] == 0xc02c && c[6] == 0xc030 && c[7] == 0xcca9 && c[8] == 0xcca8 && c[9] == 0xc013);
    assert(c[10] == 0xc014 && c[11] == 0x009c && c[12] == 0x009d && c[13] == 0x002f && c[14] == 0x0035);
    assert(w =~= seq![
        0x13u8,
        1,
        0x13,
        2,
        0x13,
        3,
        0xc0,
        0x2b,
        0xc0,
        0x2f,
        0xc0,
        0x2c,
        0xc0,
        0x30,
        0xcc,
        0xa9,
        0xcc,
        0xa8,
        0xc0,
        0x13,
        0xc0,
        0x14,
        0,
        0x9c,
        0,
        0x9d,
        0,
        0x2f,
        0,
        0x35,
    ]);
}

/// A Certificate message holds one leaf and no extensions; a CertificateVerify
/// message the Ed25519 signature of 64 blanks, `TLS 1.3, server
/// CertificateVerify`, a zero and the hash of what was said.
pub proof fn law_leaf_messages(
    der: &[u8],
    certificate: Vec<u8>,
    leaf: &HmacLeaf,
    hash: &[u8],
    verify: Result<Vec<u8>, LeafError>,
    blanks: Seq<u8>,
)
    requires
        call_ensures(certificate_msg, (der,), certificate),
        der@.len() + 9 < 0x100_0000,
        call_ensures(certificate_verify_msg, (leaf, hash), verify),
        blanks.len() == 64,
        forall|i: int| 0 <= i < 64 ==> #[trigger] blanks[i] == 32,
    ensures
        certificate@ == seq![11u8] + three(der@.len() as int + 9) + seq![0u8] + three(der@.len() as int + 5) + three(
            der@.len() as int,
        ) + der@ + seq![0u8, 0],
        ({
            let content = blanks + seq![
                84u8,
                76,
                83,
                32,
                49,
                46,
                51,
                44,
                32,
                115,
                101,
                114,
                118,
                101,
                114,
                32,
                67,
                101,
                114,
                116,
                105,
                102,
                105,
                99,
                97,
                116,
                101,
                86,
                101,
                114,
                105,
                102,
                121,
                0,
            ] + hash@;
            &&& verify is Ok <==> leaf_signature(leaf.key@, content) is Some
            &&& verify matches Ok(msg) ==> {
                let signature = leaf_signature(leaf.key@, content)->0;
                signature.len() < 65_000 ==> msg@ == seq![15u8] + three(signature.len() as int + 4) + seq![8u8, 7] + two(
                    signature.len() as int,
                ) + signature
            }
        }),
{
    let n = der@.len();
    lemma_three(n);
    lemma_three(n + 5);
    lemma_three(n + 9);
    assert(certificate@ =~= seq![11u8] + three(n as int + 9) + seq![0u8] + three(n as int + 5) + three(n as int) + der@ + seq![
        0u8,
        0,
    ]);
    let context = super::tls_messages::VERIFY_CONTEXT;
    let words = seq![
        84u8,
        76,
        83,
        32,
        49,
        46,
        51,
        44,
        32,
        115,
        101,
        114,
        118,
        101,
        114,
        32,
        67,
        101,
        114,
        116,
        105,
        102,
        105,
        99,
        97,
        116,
        101,
        86,
        101,
        114,
        105,
        102,
        121,
        0,
    ];
    assert(context@ =~= words);
    let content = blanks + words + hash@;
    assert(content =~= super::tls_messages::signed_content(hash@));
    if let Ok(msg) = verify {
        let signature = leaf_signature(leaf.key@, content)->0;
        if signature.len() < 65_000 {
            lemma_two(signature.len());
            lemma_three(signature.len() + 4);
            assert(msg@ =~= seq![15u8] + three(signature.len() as int + 4) + seq![8u8, 7] + two(signature.len() as int)
                + signature);
        }
    }
}

/// A ServerHello of our own: version, random bytes, session id, suite, and
/// the extensions in the order that was asked for.
pub proof fn law_server_hello(
    random: &[u8; 32],
    session_id: &[u8],
    cipher: u16,
    public: &[u8; 32],
    order: &[u16],
    msg: Vec<u8>,
)
    requires
        call_ensures(build_server_hello_handshake, (random, session_id, cipher, public, order), msg),
        session_id@.len() < 256,
    ensures
        ({
            let n = session_id@.len() as int;
            let versions = seq![0u8, 43, 0, 2, 3, 4];
            let share = seq![0u8, 51, 0, 36, 0, 0x1d, 0, 32] + public@;
            let head = seq![3u8, 3] + random@ + seq![n as u8] + session_id@ + two(cipher as int) + seq![0u8, 0, 46];
            &&& order@ == seq![43u16, 51] || order@ == seq![43u16] || order@.len() == 0 ==> msg@ == seq![2u8] + three(
                86 + n,
            ) + head + versions + share
            &&& order@ == seq![51u16, 43] || order@ == seq![51u16] ==> msg@ == seq![2u8] + three(86 + n) + head + share
                + versions
        }),
{
    let n = session_id@.len() as int;
    let v = super::hello_build::server_versions();
    let s = super::hello_build::server_share(public@);
    let versions = seq![0u8, 43, 0, 2, 3, 4];
    let share = seq![0u8, 51, 0, 36, 0, 0x1d, 0, 32] + public@;
    lemma_two(0x0304);
    lemma_two(43);
    lemma_two(51);
    lemma_two(2);
    lemma_two(36);
    lemma_two(0x1d);
    lemma_two(32);
    lemma_two(46);
    lemma_two(cipher as nat);
    lemma_three((86 + n) as nat);
    reveal_with_fuel(be_bytes, 2);
    assert(be_bytes(session_id@.len(), 1) =~= seq![n as u8]);
    assert(super::hello_build::entry_wire(v.0, v.1) =~= versions);
    assert(super::hello_build::entry_wire(s.0, s.1) =~= share);
    lemma_pairs(v, s);
    lemma_pairs(s, v);
    let o = order@;
    let list = super::hello_build::server_extension_list(public@, o);
    reveal_with_fuel(super::hello_build::ordered_extensions, 4);
    let head = seq![3u8, 3] + random@ + seq![n as u8] + session_id@ + two(cipher as int) + seq![0u8, 0, 46];
    if o == seq![43u16, 51] || o == seq![43u16] || o.len() == 0 {
        if o == seq![43u16, 51] {
            assert(o[0] == 43 && o[1] == 51);
            assert(o.contains(43u16) && o.contains(51u16));
            assert(o.drop_last() =~= seq![43u16]);
            assert(o.drop_last().drop_last() =~= Seq::<u16>::empty());
        } else if o == seq![43u16] {
            assert(o[0] == 43);
            assert(o.contains(43u16) && !o.contains(51u16));
            assert(o.drop_last() =~= Seq::<u16>::empty());
        }
        assert(list =~= seq![v, s]);
        assert(msg@ =~= seq![2u8] + three(86 + n) + head + versions + share);
    }
    if o == seq![51u16, 43] || o == seq![51u16] {
        if o == seq![51u16, 43] {
            assert(o[0] == 51 && o[1] == 43);
            assert(o.contains(43u16) && o.contains(51u16));
            assert(o.drop_last() =~= seq![51u16]);
            assert(o.drop_last().drop_last() =~= Seq::<u16>::empty());
            assert(list =~= seq![s, v]);
        } else {
            assert(o[0] == 51);
            assert(!o.contains(43u16) && o.contains(51u16));
            assert(o.drop_last() =~= Seq::<u16>::empty());
            assert(list =~= seq![s, v]);
        }
        assert(msg@ =~= seq![2u8] + three(86 + n) + head + share + versions);
    }
}

proof fn lemma_pairs(a: (nat, Seq<u8>), b: (nat, Seq<u8>))
    ensures
        super::hello_build::entries_wire(seq![a, b]) == super::hello_build::entry_wire(a.0, a.1)
            + super::hello_build::entry_wire(b.0, b.1),
{
    let list = seq![a, b];
    reveal_with_fuel(super::hello_build::entries_wire, 3);
    assert(list.drop_last() =~= seq![a]);
    assert(list.drop_last().drop_last() =~= Seq::<(nat, Seq<u8>)>::empty());
    assert(super::hello_build::entries_wire(list) =~= super::hello_build::entry_wire(a.0, a.1)
        + super::hello_build::entry_wire(b.0, b.1));
}

/// Whether a buffer holds one whole handshake message and nothing else.
pub open spec fn one_message(s: Seq<u8>) -> bool {
    s.len() >= 4 && s.len() == 4 + s[1] * 65536 + s[2] * 256 + s[3]
}

proof fn lemma_one_message(s: Seq<u8>)
    requires
        one_message(s),
    ensures
        super::tls_messages::message_end(s) == Some(s.len() as int),
        s.take(s.len() as int) == s,
        s.skip(s.len() as int) == Seq::<u8>::empty(),
        super::tls_messages::message_end(Seq::<u8>::empty()) is None,
{
    let t = s.subrange(1, 4);
    reveal_with_fuel(be_value, 4);
    assert(t.drop_last() =~= seq![s[1], s[2]]);
    assert(t.drop_last().drop_last() =~= seq![s[1]]);
    assert(t.drop_last().drop_last().drop_last() =~= Seq::<u8>::empty());
    assert(s.take(s.len() as int) =~= s);
    assert(s.skip(s.len() as int) =~= Seq::<u8>::empty());
}

/// What a client makes of the server's flight, message by message: a leaf
/// has to carry the HMAC or be the pinned one, nothing is signed before it is
/// there, and the connection is up when the server's Finished is right, and
/// not otherwise.
pub proof fn law_client_listens(
    c: &mut ClientHandshake,
    flight: super::tls_client::ClientFlight,
    typ: u8,
    body: &[u8],
    step: Result<ClientStep, TlsError>,
    content: Seq<u8>,
)
    requires
        old(c).wf(),
        old(c).phase() == ClientPhase::Flight(flight),
        flight.buf().len() == 0,
        call_ensures(ClientHandshake::on_record, (c, typ, body), step),
    ensures
        typ == 0x14 ==> (step matches Ok(ClientStep::More)) && final(c).phase() == old(c).phase(),
        typ != 0x14 && typ != 0x17 ==> step == Err::<ClientStep, TlsError>(TlsError::HandshakeRecord(typ)),
        step is Err ==> final(c).phase() is Over,
        typ == 0x17 && opened_record(flight.server_keys(), body@) is Err ==> step is Err,
        typ == 0x17 && opened_record(flight.server_keys(), body@) == Ok::<(u8, Seq<u8>), RecordError>((0x16, content))
            && one_message(content) ==> {
            let said = flight.talk().said;
            let wide = flight.suite() == Suite::Aes256GcmSha384;
            let mac = finished_mac(flight.suite(), flight.server_secret(), flight.suite().digest(said));
            let size = if wide {
                48int
            } else {
                32
            };
            &&& content[0] == 8 && !flight.talk().finished ==> (step matches Ok(ClientStep::More))
            &&& content[0] == 15 && flight.talk().leaf is None ==> step == Err::<ClientStep, TlsError>(
                TlsError::NoCertificate,
            )
            &&& content[0] == 20 && content.len() == 4 + size ==> {
                &&& (step matches Ok(ClientStep::Done { .. })) <==> content.skip(4) == mac
                &&& content.skip(4) != mac ==> step == Err::<ClientStep, TlsError>(TlsError::WrongFinished)
            }
            &&& content[0] == 20 && content.len() < 4 + size ==> step == Err::<ClientStep, TlsError>(
                TlsError::ShortFinished,
            )
            &&& (content[0] == 4 || content[0] == 24) && !flight.talk().finished ==> step == Err::<
                ClientStep,
                TlsError,
            >(TlsError::Message(content[0]))
            &&& content[0] != 4 && content[0] != 8 && content[0] != 11 && content[0] != 15 && content[0] != 20
                && content[0] != 24 ==> step == Err::<ClientStep, TlsError>(TlsError::Message(content[0]))
            &&& content[0] == 11 && !flight.talk().finished ==> {
                let read = super::tls_messages::certificate_in(content);
                &&& read is Err ==> step is Err
                &&& read matches Ok(leaf) ==> {
                    let right = super::cert::hmac_fits(old(c).auth_key(), leaf) || old(c).pin() == Some(leaf);
                    &&& right ==> (step matches Ok(ClientStep::More)) && (final(c).phase() matches ClientPhase::Flight(next) && next.talk().leaf == Some(leaf) && next.talk().said
                        == said + content)
                    &&& !right ==> step == Err::<ClientStep, TlsError>(TlsError::WrongCertificate)
                }
            }
        },
{
    assert(flight.buf() + content =~= content);
    if one_message(content) {
        lemma_one_message(content);
        reveal_with_fuel(super::tls_client::heard_all, 3);
    }
}

/// What a server makes of the client's last record: it is up when the
/// client's Finished is right, and not otherwise.
pub proof fn law_server_listens(
    w: &mut ServerWait,
    typ: u8,
    body: &[u8],
    step: Result<ServerStep, TlsError>,
    content: Seq<u8>,
)
    requires
        old(w).wf(),
        call_ensures(ServerWait::on_record, (w, typ, body), step),
    ensures
        typ == 0x14 ==> (step matches Ok(ServerStep::More)) && *final(w) == *old(w),
        typ != 0x14 && typ != 0x17 ==> step == Err::<ServerStep, TlsError>(TlsError::RecordAfterHello(typ)),
        typ == 0x17 && opened_record(old(w).client_keys(), body@) is Err ==> step is Err,
        typ == 0x17 && opened_record(old(w).client_keys(), body@) == Ok::<(u8, Seq<u8>), RecordError>((0x16, content))
            && one_message(content) ==> {
            let size = if old(w).suite() == Suite::Aes256GcmSha384 {
                48int
            } else {
                32
            };
            let mac = finished_mac(old(w).suite(), old(w).client_secret(), old(w).hash());
            &&& (step matches Ok(ServerStep::Done { .. })) <==> content[0] == 20 && content.len() >= 4 + size
                && content.skip(4) == mac
            &&& content[0] == 20 && content.len() == 4 + size && content.skip(4) != mac ==> step == Err::<
                ServerStep,
                TlsError,
            >(TlsError::WrongClientFinished)
            &&& content[0] != 20 ==> step == Err::<ServerStep, TlsError>(TlsError::NoFinished)
            &&& step matches Ok(ServerStep::Done { out, send, recv }) ==> recv == old(w).recv() && (old(w).post().len() == 0 ==> out@.len() == 0 && send == old(w).send())
        },
        typ == 0x17 && (opened_record(old(w).client_keys(), body@) matches Ok((inner, _)) && inner != 0x16)
            ==> step == Err::<ServerStep, TlsError>(TlsError::NoClientHandshake),
{
    if one_message(content) {
        lemma_one_message(content);
    }
}

} // verus!
