//! Hello messages as they are written. The ClientHello follows Chrome 131:
//! GREASE comes first and last, the extensions between them are shuffled, the
//! key shares are X25519MLKEM768 and X25519. The server's answer is that of
//! the site it stands in for, cipher and extension order included.

use vstd::prelude::*;

use super::auth::SESSION_ID_LEN;
use super::hello::{
    client_hello_in, handshake_in, ALPN_H2, ALPN_HTTP11, EXT_ALPN, EXT_KEY_SHARE, EXT_SERVER_NAME,
    EXT_SUPPORTED_VERSIONS, GROUP_X25519, GROUP_X25519_MLKEM768,
};
use super::hello_laws::{client_parts, lemma_client_hello, lemma_hello_record};
use super::hello_shape::{hello_len, law_hello_length};
use crate::auth::keys::NoRandomness;
use crate::crypto::{mlkem768_key, mlkem768_public_key};
use crate::random::os_random_array;
use crate::wire::{be_bytes, push_be};

verus! {

pub const EXT_STATUS_REQUEST: u16 = 5;

pub const EXT_SUPPORTED_GROUPS: u16 = 10;

pub const EXT_EC_POINT_FORMATS: u16 = 11;

pub const EXT_SIGNATURE_ALGORITHMS: u16 = 13;

pub const EXT_SCT: u16 = 18;

pub const EXT_EXTENDED_MASTER_SECRET: u16 = 23;

pub const EXT_COMPRESS_CERTIFICATE: u16 = 27;

pub const EXT_SESSION_TICKET: u16 = 35;

pub const EXT_PSK_KEY_EXCHANGE_MODES: u16 = 45;

pub const EXT_RENEGOTIATION_INFO: u16 = 0xff01;

pub const EXT_ALPS: u16 = 17513;

pub const EXT_ECH: u16 = 0xfe0d;

pub const GROUP_SECP256R1: u16 = 0x0017;

pub const GROUP_SECP384R1: u16 = 0x0018;

pub const MLKEM768_PUBLIC_LEN: usize = 1184;

/// The cipher suites after GREASE.
pub const CHROME_CIPHERS: [u16; 15] = [
    0x1301, 0x1302, 0x1303, 0xc02b, 0xc02f, 0xc02c, 0xc030, 0xcca9, 0xcca8, 0xc013, 0xc014, 0x009c, 0x009d, 0x002f,
    0x0035,
];

pub const SIGNATURE_ALGORITHMS: [u16; 8] = [0x0403, 0x0804, 0x0401, 0x0503, 0x0805, 0x0501, 0x0806, 0x0601];

// ---------------------------------------------------------------------------
// Pieces
// ---------------------------------------------------------------------------

/// A two-byte length, then the bytes.
pub open spec fn run_wire(data: Seq<u8>) -> Seq<u8> {
    be_bytes(data.len(), 2) + data
}

/// A type, a length and the bytes.
pub open spec fn entry_wire(typ: nat, data: Seq<u8>) -> Seq<u8> {
    be_bytes(typ, 2) + run_wire(data)
}

pub open spec fn entries_wire(list: Seq<(nat, Seq<u8>)>) -> Seq<u8>
    decreases list.len(),
{
    if list.len() == 0 {
        Seq::empty()
    } else {
        entries_wire(list.drop_last()) + entry_wire(list.last().0, list.last().1)
    }
}

pub open spec fn u16s_wire(values: Seq<u16>) -> Seq<u8>
    decreases values.len(),
{
    if values.len() == 0 {
        Seq::empty()
    } else {
        u16s_wire(values.drop_last()) + be_bytes(values.last() as nat, 2)
    }
}

pub(super) fn push_run(out: &mut Vec<u8>, data: &[u8])
    ensures
        final(out)@ == old(out)@ + run_wire(data@),
{
    push_be(out, data.len() as u64, 2);
    out.extend_from_slice(data);
    assert(out@ =~= old(out)@ + run_wire(data@));
}

pub(super) fn run_of(data: &[u8]) -> (out: Vec<u8>)
    ensures
        out@ == run_wire(data@),
{
    let mut out: Vec<u8> = Vec::new();
    push_run(&mut out, data);
    assert(out@ =~= run_wire(data@));
    out
}

pub(super) fn push_entry(out: &mut Vec<u8>, typ: u16, data: &[u8])
    ensures
        final(out)@ == old(out)@ + entry_wire(typ as nat, data@),
{
    push_be(out, typ as u64, 2);
    push_run(out, data);
    assert(out@ =~= old(out)@ + entry_wire(typ as nat, data@));
}

fn push_u16s(out: &mut Vec<u8>, values: &[u16])
    ensures
        final(out)@ == old(out)@ + u16s_wire(values@),
{
    let ghost before = out@;
    let mut i: usize = 0;
    assert(values@.take(0) =~= Seq::empty());
    assert(out@ =~= before + u16s_wire(values@.take(0)));
    while i < values.len()
        invariant
            i <= values.len(),
            out@ == before + u16s_wire(values@.take(i as int)),
        decreases values.len() - i,
    {
        push_be(out, values[i] as u64, 2);
        proof {
            assert(values@.take(i + 1).drop_last() =~= values@.take(i as int));
            assert(out@ =~= before + u16s_wire(values@.take(i + 1)));
        }
        i = i + 1;
    }
    assert(values@.take(i as int) =~= values@);
}

fn u16_list(values: &[u16]) -> (out: Vec<u8>)
    ensures
        out@ == run_wire(u16s_wire(values@)),
{
    let mut inner: Vec<u8> = Vec::new();
    push_u16s(&mut inner, values);
    assert(inner@ =~= u16s_wire(values@));
    run_of(&inner)
}

/// Names with a one-byte length each.
pub open spec fn names_wire(names: Seq<Seq<u8>>) -> Seq<u8>
    decreases names.len(),
{
    if names.len() == 0 {
        Seq::empty()
    } else {
        names_wire(names.drop_last()) + be_bytes(names.last().len(), 1) + names.last()
    }
}

fn push_name(out: &mut Vec<u8>, name: &[u8], Ghost(names): Ghost<Seq<Seq<u8>>>)
    requires
        old(out)@ == names_wire(names),
    ensures
        final(out)@ == names_wire(names.push(name@)),
{
    push_be(out, name.len() as u64, 1);
    out.extend_from_slice(name);
    proof {
        assert(names.push(name@).drop_last() =~= names);
        assert(out@ =~= names_wire(names) + be_bytes(name@.len(), 1) + name@);
    }
}

// ---------------------------------------------------------------------------
// GREASE
// ---------------------------------------------------------------------------

/// The sixteen reserved values: `0x0a0a`, `0x1a1a`, up to `0xfafa`.
pub open spec fn grease_value(i: nat) -> nat {
    0x0a0a + 0x1010 * i
}

pub open spec fn grease_spec(value: nat) -> bool {
    exists|i: nat| i < 16 && value == #[trigger] grease_value(i)
}

pub fn is_grease(value: u16) -> (yes: bool)
    ensures
        yes == grease_spec(value as nat),
{
    let yes = value >= 0x0a0a && (value - 0x0a0a) % 0x1010 == 0;
    proof {
        let i = ((value - 0x0a0a) / 0x1010) as nat;
        if yes {
            assert(value == grease_value(i));
        }
        assert forall|i: nat| i < 16 && value == #[trigger] grease_value(i) implies yes by {}
    }
    yes
}

/// Two different values of GREASE.
pub open spec fn grease_pair_of(a: u8, b: u8) -> (nat, nat) {
    let i = (a % 16) as nat;
    let j = (b % 16) as nat;
    (
        grease_value(i),
        grease_value(
            if i == j {
                (i + 8) % 16
            } else {
                j
            },
        ),
    )
}

fn grease_pair(a: u8, b: u8) -> (pair: (u16, u16))
    ensures
        (pair.0 as nat, pair.1 as nat) == grease_pair_of(a, b),
{
    let i: u16 = (a % 16) as u16;
    let mut j: u16 = (b % 16) as u16;
    if i == j {
        j = (i + 8) % 16;
    }
    (0x0a0a + 0x1010 * i, 0x0a0a + 0x1010 * j)
}

// ---------------------------------------------------------------------------
// The ClientHello
// ---------------------------------------------------------------------------

/// The random bytes that go into a ClientHello beside its random field.
#[derive(Clone, Copy)]
pub struct HelloNoise {
    pub first_grease: u8,
    pub last_grease: u8,
    pub mlkem_seed: [u8; 64],
    pub ech_key: [u8; 32],
    pub ech_size: u8,
    pub ech_payload: [u8; 240],
    pub ech_config: u8,
    pub order: [u8; 16],
}

/// What the random bytes of each draw are used for.
pub fn noise_from(
    grease: [u8; 2],
    mlkem_seed: [u8; 64],
    ech_key: [u8; 32],
    ech: [u8; 2],
    ech_payload: [u8; 240],
    order: [u8; 16],
) -> (noise: HelloNoise)
    ensures
        noise.first_grease == grease@[0],
        noise.last_grease == grease@[1],
        noise.mlkem_seed == mlkem_seed,
        noise.ech_key == ech_key,
        noise.ech_size == ech@[0],
        noise.ech_config == ech@[1],
        noise.ech_payload == ech_payload,
        noise.order == order,
{
    HelloNoise {
        first_grease: grease[0],
        last_grease: grease[1],
        mlkem_seed,
        ech_key,
        ech_size: ech[0],
        ech_payload,
        ech_config: ech[1],
        order,
    }
}

/// Draws random bytes of the operating system, none where it has none to
/// give. Every value can come back.
pub(super) fn draw_noise() -> (noise: Option<HelloNoise>) {
    let grease: [u8; 2] = match os_random_array() {
        Some(bytes) => bytes,
        None => return None,
    };
    let mlkem_seed: [u8; 64] = match os_random_array() {
        Some(bytes) => bytes,
        None => return None,
    };
    let ech_key: [u8; 32] = match os_random_array() {
        Some(bytes) => bytes,
        None => return None,
    };
    let ech: [u8; 2] = match os_random_array() {
        Some(bytes) => bytes,
        None => return None,
    };
    let ech_payload: [u8; 240] = match os_random_array() {
        Some(bytes) => bytes,
        None => return None,
    };
    let order: [u8; 16] = match os_random_array() {
        Some(bytes) => bytes,
        None => return None,
    };
    Some(noise_from(grease, mlkem_seed, ech_key, ech, ech_payload, order))
}

/// A list of one host name.
pub open spec fn sni_wire(host: Seq<u8>) -> Seq<u8> {
    run_wire(seq![0u8] + run_wire(host))
}

fn sni_payload(host: &[u8]) -> (out: Vec<u8>)
    ensures
        out@ == sni_wire(host@),
{
    let mut inner: Vec<u8> = Vec::new();
    inner.push(0);
    push_run(&mut inner, host);
    assert(inner@ =~= seq![0u8] + run_wire(host@));
    run_of(&inner)
}

/// A list of protocol names.
pub open spec fn alpn_wire(names: Seq<Seq<u8>>) -> Seq<u8> {
    run_wire(names_wire(names))
}

fn alpn_h2_http11() -> (out: Vec<u8>)
    ensures
        out@ == alpn_wire(seq![ALPN_H2@, ALPN_HTTP11@]),
{
    let h2 = ALPN_H2;
    let http11 = ALPN_HTTP11;
    let mut inner: Vec<u8> = Vec::new();
    push_name(&mut inner, &h2, Ghost(Seq::empty()));
    push_name(&mut inner, &http11, Ghost(Seq::<Seq<u8>>::empty().push(h2@)));
    assert(Seq::<Seq<u8>>::empty().push(h2@).push(http11@) =~= seq![ALPN_H2@, ALPN_HTTP11@]);
    run_of(&inner)
}

fn alpn_h2() -> (out: Vec<u8>)
    ensures
        out@ == alpn_wire(seq![ALPN_H2@]),
{
    let h2 = ALPN_H2;
    let mut inner: Vec<u8> = Vec::new();
    push_name(&mut inner, &h2, Ghost(Seq::empty()));
    assert(Seq::<Seq<u8>>::empty().push(h2@) =~= seq![ALPN_H2@]);
    run_of(&inner)
}

/// GREASE, the hybrid share and the X25519 share.
pub open spec fn shares_of(grease: nat, seed: Seq<u8>, public: Seq<u8>) -> Seq<(nat, Seq<u8>)> {
    seq![
        (grease, seq![0u8]),
        (GROUP_X25519_MLKEM768 as nat, mlkem768_key(seed) + public),
        (GROUP_X25519 as nat, public),
    ]
}

pub open spec fn key_share_wire(grease: nat, seed: Seq<u8>, public: Seq<u8>) -> Seq<u8> {
    run_wire(entries_wire(shares_of(grease, seed, public)))
}

fn key_share(grease: u16, seed: &[u8; 64], public: &[u8; 32]) -> (out: Vec<u8>)
    ensures
        out@ == key_share_wire(grease as nat, seed@, public@),
        mlkem768_key(seed@).len() == MLKEM768_PUBLIC_LEN,
{
    let mut hybrid: Vec<u8> = Vec::new();
    let mlkem = mlkem768_public_key(seed);
    hybrid.extend_from_slice(&mlkem);
    hybrid.extend_from_slice(public);
    assert(hybrid@ =~= mlkem768_key(seed@) + public@);
    let mut shares: Vec<u8> = Vec::new();
    let none: [u8; 1] = [0];
    assert(none@ =~= seq![0u8]);
    push_entry(&mut shares, grease, &none);
    push_entry(&mut shares, GROUP_X25519_MLKEM768, &hybrid);
    push_entry(&mut shares, GROUP_X25519, public);
    proof {
        let list = shares_of(grease as nat, seed@, public@);
        lemma_entries_wire_three(list[0], list[1], list[2]);
        assert(list =~= seq![list[0], list[1], list[2]]);
        assert(shares@ =~= entries_wire(list));
    }
    run_of(&shares)
}

proof fn lemma_entries_wire_three(a: (nat, Seq<u8>), b: (nat, Seq<u8>), c: (nat, Seq<u8>))
    ensures
        entries_wire(seq![a, b, c]) == entry_wire(a.0, a.1) + entry_wire(b.0, b.1) + entry_wire(c.0, c.1),
{
    let none = Seq::<(nat, Seq<u8>)>::empty();
    lemma_entries_wire_push(none, a);
    lemma_entries_wire_push(none.push(a), b);
    lemma_entries_wire_push(none.push(a).push(b), c);
    assert(none.push(a).push(b).push(c) =~= seq![a, b, c]);
    assert(entries_wire(none) =~= Seq::empty());
    assert(entries_wire(seq![a, b, c]) =~= entry_wire(a.0, a.1) + entry_wire(b.0, b.1) + entry_wire(c.0, c.1));
}

pub(super) proof fn lemma_entries_wire_push(list: Seq<(nat, Seq<u8>)>, e: (nat, Seq<u8>))
    ensures
        entries_wire(list.push(e)) == entries_wire(list) + entry_wire(e.0, e.1),
{
    assert(list.push(e).drop_last() =~= list);
}

/// How long the payload of the ECH extension is: one of four sizes.
pub open spec fn ech_len(size: u8) -> nat {
    (144 + 32 * (size % 4)) as nat
}

/// Outer ECH with HKDF-SHA-256 and AES-128-GCM.
pub open spec fn ech_wire(config: u8, key: Seq<u8>, payload: Seq<u8>) -> Seq<u8> {
    seq![0u8, 0, 1, 0, 1, config] + run_wire(key) + run_wire(payload)
}

fn grease_ech(noise: &HelloNoise) -> (out: Vec<u8>)
    ensures
        out@ == ech_wire(
            noise.ech_config,
            noise.ech_key@,
            noise.ech_payload@.take(ech_len(noise.ech_size) as int),
        ),
{
    let len: usize = 144 + 32 * (noise.ech_size % 4) as usize;
    let payload = vstd::slice::slice_subrange(&noise.ech_payload, 0, len);
    assert(payload@ =~= noise.ech_payload@.take(len as int));
    let mut out: Vec<u8> = Vec::new();
    out.push(0);
    out.push(0);
    out.push(1);
    out.push(0);
    out.push(1);
    out.push(noise.ech_config);
    assert(out@ =~= seq![0u8, 0, 1, 0, 1, noise.ech_config]);
    push_run(&mut out, &noise.ech_key);
    push_run(&mut out, payload);
    out
}

/// The extensions between the two of GREASE, before they are shuffled.
pub open spec fn middle_extensions(
    host: Seq<u8>,
    public: Seq<u8>,
    grease: (nat, nat),
    noise: HelloNoise,
) -> Seq<(nat, Seq<u8>)> {
    seq![
        (EXT_SERVER_NAME as nat, sni_wire(host)),
        (EXT_EXTENDED_MASTER_SECRET as nat, Seq::empty()),
        (EXT_RENEGOTIATION_INFO as nat, seq![0u8]),
        (
            EXT_SUPPORTED_GROUPS as nat,
            run_wire(
                u16s_wire(
                    seq![
                        grease.0 as u16,
                        GROUP_X25519_MLKEM768,
                        GROUP_X25519,
                        GROUP_SECP256R1,
                        GROUP_SECP384R1,
                    ],
                ),
            ),
        ),
        (EXT_EC_POINT_FORMATS as nat, seq![1u8, 0]),
        (EXT_SESSION_TICKET as nat, Seq::empty()),
        (EXT_ALPN as nat, alpn_wire(seq![ALPN_H2@, ALPN_HTTP11@])),
        (EXT_STATUS_REQUEST as nat, seq![1u8, 0, 0, 0, 0]),
        (EXT_SIGNATURE_ALGORITHMS as nat, run_wire(u16s_wire(SIGNATURE_ALGORITHMS@))),
        (EXT_SCT as nat, Seq::empty()),
        (EXT_KEY_SHARE as nat, key_share_wire(grease.0, noise.mlkem_seed@, public)),
        (EXT_PSK_KEY_EXCHANGE_MODES as nat, seq![1u8, 1]),
        (EXT_SUPPORTED_VERSIONS as nat, seq![6u8] + u16s_wire(seq![grease.1 as u16, 0x0304u16, 0x0303u16])),
        (EXT_COMPRESS_CERTIFICATE as nat, seq![2u8, 0, 2]),
        (EXT_ALPS as nat, alpn_wire(seq![ALPN_H2@])),
        (
            EXT_ECH as nat,
            ech_wire(noise.ech_config, noise.ech_key@, noise.ech_payload@.take(ech_len(noise.ech_size) as int)),
        ),
    ]
}

pub open spec fn pair_views(v: Seq<(u16, Vec<u8>)>) -> Seq<(nat, Seq<u8>)> {
    Seq::new(v.len(), |i: int| (v[i].0 as nat, v[i].1@))
}

fn bytes_of(data: &[u8]) -> (out: Vec<u8>)
    ensures
        out@ == data@,
{
    vstd::slice::slice_to_vec(data)
}

fn supported_versions(grease: u16) -> (out: Vec<u8>)
    ensures
        out@ == seq![6u8] + u16s_wire(seq![grease, 0x0304u16, 0x0303u16]),
{
    let versions: [u16; 3] = [grease, 0x0304, 0x0303];
    assert(versions@ =~= seq![grease, 0x0304u16, 0x0303u16]);
    let mut out: Vec<u8> = Vec::new();
    out.push(6);
    assert(out@ =~= seq![6u8]);
    push_u16s(&mut out, &versions);
    out
}

fn build_middle(host: &[u8], public: &[u8; 32], grease: (u16, u16), noise: &HelloNoise) -> (out: Vec<(u16, Vec<u8>)>)
    ensures
        pair_views(out@) == middle_extensions(host@, public@, (grease.0 as nat, grease.1 as nat), *noise),
        mlkem768_key(noise.mlkem_seed@).len() == MLKEM768_PUBLIC_LEN,
{
    let groups: [u16; 5] = [grease.0, GROUP_X25519_MLKEM768, GROUP_X25519, GROUP_SECP256R1, GROUP_SECP384R1];
    let algorithms = SIGNATURE_ALGORITHMS;
    let empty: [u8; 0] = [];
    let zero: [u8; 1] = [0];
    let formats: [u8; 2] = [1, 0];
    let status: [u8; 5] = [1, 0, 0, 0, 0];
    let modes: [u8; 2] = [1, 1];
    let brotli: [u8; 3] = [2, 0, 2];
    proof {
        assert(groups@ =~= seq![grease.0, GROUP_X25519_MLKEM768, GROUP_X25519, GROUP_SECP256R1, GROUP_SECP384R1]);
        assert(empty@ =~= Seq::empty());
        assert(zero@ =~= seq![0u8]);
        assert(formats@ =~= seq![1u8, 0]);
        assert(status@ =~= seq![1u8, 0, 0, 0, 0]);
        assert(modes@ =~= seq![1u8, 1]);
        assert(brotli@ =~= seq![2u8, 0, 2]);
    }
    let mut out: Vec<(u16, Vec<u8>)> = Vec::new();
    out.push((EXT_SERVER_NAME, sni_payload(host)));
    out.push((EXT_EXTENDED_MASTER_SECRET, bytes_of(&empty)));
    out.push((EXT_RENEGOTIATION_INFO, bytes_of(&zero)));
    out.push((EXT_SUPPORTED_GROUPS, u16_list(&groups)));
    out.push((EXT_EC_POINT_FORMATS, bytes_of(&formats)));
    out.push((EXT_SESSION_TICKET, bytes_of(&empty)));
    out.push((EXT_ALPN, alpn_h2_http11()));
    out.push((EXT_STATUS_REQUEST, bytes_of(&status)));
    out.push((EXT_SIGNATURE_ALGORITHMS, u16_list(&algorithms)));
    out.push((EXT_SCT, bytes_of(&empty)));
    out.push((EXT_KEY_SHARE, key_share(grease.0, &noise.mlkem_seed, public)));
    out.push((EXT_PSK_KEY_EXCHANGE_MODES, bytes_of(&modes)));
    out.push((EXT_SUPPORTED_VERSIONS, supported_versions(grease.1)));
    out.push((EXT_COMPRESS_CERTIFICATE, bytes_of(&brotli)));
    out.push((EXT_ALPS, alpn_h2()));
    out.push((EXT_ECH, grease_ech(noise)));
    assert(pair_views(out@) =~= middle_extensions(
        host@,
        public@,
        (grease.0 as nat, grease.1 as nat),
        *noise,
    ));
    out
}

/// `s` with two of its items exchanged.
pub open spec fn swapped(s: Seq<usize>, i: int, j: int) -> Seq<usize> {
    s.update(i, s[j]).update(j, s[i])
}

/// From place `i` down, each place is exchanged with one at or before it, as
/// the random bytes pick.
pub open spec fn shuffled(s: Seq<usize>, picks: Seq<u8>, i: nat) -> Seq<usize>
    decreases i,
{
    if i == 0 {
        s
    } else {
        shuffled(swapped(s, i as int, (picks[i as int] as nat % (i + 1)) as int), picks, (i - 1) as nat)
    }
}

/// The sixteen places in order.
pub open spec fn in_order() -> Seq<usize> {
    Seq::new(16, |i: int| i as usize)
}

fn shuffle(picks: &[u8; 16]) -> (order: Vec<usize>)
    ensures
        order@ == shuffled(in_order(), picks@, 15),
        order@.len() == 16,
        forall|k: int| 0 <= k < 16 ==> (#[trigger] order@[k]) < 16,
{
    let mut order: Vec<usize> = Vec::new();
    let mut i: usize = 0;
    while i < 16
        invariant
            i <= 16,
            order@ =~= Seq::new(i as nat, |k: int| k as usize),
        decreases 16 - i,
    {
        order.push(i);
        i = i + 1;
    }
    assert(order@ =~= in_order());
    i = 15;
    while i > 0
        invariant
            i <= 15,
            order@.len() == 16,
            forall|k: int| 0 <= k < 16 ==> (#[trigger] order@[k]) < 16,
            shuffled(order@, picks@, i as nat) == shuffled(in_order(), picks@, 15),
        decreases i,
    {
        let j: usize = picks[i] as usize % (i + 1);
        let a: usize = order[i];
        let b: usize = order[j];
        let ghost before = order@;
        order.set(i, b);
        order.set(j, a);
        assert(order@ =~= swapped(before, i as int, j as int));
        i = i - 1;
    }
    order
}

/// All extensions of the ClientHello, in the order in which they are sent.
pub open spec fn hello_extensions(host: Seq<u8>, public: Seq<u8>, noise: HelloNoise) -> Seq<(nat, Seq<u8>)> {
    let grease = grease_pair_of(noise.first_grease, noise.last_grease);
    let middle = middle_extensions(host, public, grease, noise);
    let order = shuffled(in_order(), noise.order@, 15);
    seq![(grease.0, seq![0u8])] + Seq::new(16, |k: int| middle[order[k] as int]) + seq![(grease.1, seq![0u8])]
}

fn encode_extensions(host: &[u8], public: &[u8; 32], noise: &HelloNoise) -> (out: Vec<u8>)
    ensures
        out@ == entries_wire(hello_extensions(host@, public@, *noise)),
        mlkem768_key(noise.mlkem_seed@).len() == MLKEM768_PUBLIC_LEN,
{
    let grease = grease_pair(noise.first_grease, noise.last_grease);
    let middle = build_middle(host, public, grease, noise);
    let order = shuffle(&noise.order);
    let zero: [u8; 1] = [0];
    assert(zero@ =~= seq![0u8]);
    let ghost pair = (grease.0 as nat, grease.1 as nat);
    let ghost items = middle_extensions(host@, public@, pair, *noise);
    let ghost first = (pair.0, seq![0u8]);
    let mut out: Vec<u8> = Vec::new();
    push_entry(&mut out, grease.0, &zero);
    let ghost mut list = Seq::<(nat, Seq<u8>)>::empty().push(first);
    proof {
        lemma_entries_wire_push(Seq::empty(), first);
        assert(out@ =~= entries_wire(list));
        assert(pair_views(middle@).len() == 16);
    }
    let mut k: usize = 0;
    while k < 16
        invariant
            k <= 16,
            middle@.len() == 16,
            order@.len() == 16,
            forall|k: int| 0 <= k < 16 ==> (#[trigger] order@[k]) < 16,
            items == pair_views(middle@),
            list =~= seq![first] + Seq::new(k as nat, |k: int| items[order@[k] as int]),
            out@ == entries_wire(list),
        decreases 16 - k,
    {
        let at: usize = order[k];
        let typ: u16 = middle[at].0;
        push_entry(&mut out, typ, &middle[at].1);
        proof {
            let e = items[at as int];
            lemma_entries_wire_push(list, e);
            list = list.push(e);
        }
        k = k + 1;
    }
    push_entry(&mut out, grease.1, &zero);
    proof {
        let e = (pair.1, seq![0u8]);
        lemma_entries_wire_push(list, e);
        assert(list.push(e) =~= hello_extensions(host@, public@, *noise));
    }
    out
}

/// A handshake message: its type, its length in three bytes, its body.
pub open spec fn message_wire(typ: u8, body: Seq<u8>) -> Seq<u8> {
    seq![typ] + be_bytes(body.len(), 3) + body
}

pub fn handshake_msg(typ: u8, body: &[u8]) -> (out: Vec<u8>)
    ensures
        out@ == message_wire(typ, body@),
{
    let mut out: Vec<u8> = Vec::new();
    out.push(typ);
    push_be(&mut out, body.len() as u64, 3);
    out.extend_from_slice(body);
    assert(out@ =~= message_wire(typ, body@));
    out
}

/// The body of the ClientHello.
pub open spec fn client_hello_body(
    random: Seq<u8>,
    session_id: Seq<u8>,
    host: Seq<u8>,
    public: Seq<u8>,
    noise: HelloNoise,
) -> Seq<u8> {
    let grease = grease_pair_of(noise.first_grease, noise.last_grease);
    seq![3u8, 3] + random + seq![32u8] + session_id + run_wire(
        be_bytes(grease.0, 2) + u16s_wire(CHROME_CIPHERS@),
    ) + seq![1u8, 0] + run_wire(entries_wire(hello_extensions(host, public, noise)))
}

/// The ClientHello for given random bytes.
pub open spec fn client_hello_wire(
    random: Seq<u8>,
    session_id: Seq<u8>,
    sni: Seq<char>,
    public: Seq<u8>,
    noise: HelloNoise,
) -> Seq<u8> {
    message_wire(1, client_hello_body(random, session_id, vstd::utf8::encode_utf8(sni), public, noise))
}

/// No ClientHello is longer than its name and this.
pub const LONGEST_NAMELESS_HELLO: usize = 1802;

pub fn client_hello_handshake(
    random: &[u8; 32],
    session_id: &[u8; 32],
    sni: &str,
    x25519_public: &[u8; 32],
    noise: &HelloNoise,
) -> (handshake: Vec<u8>)
    ensures
        handshake@ == client_hello_wire(random@, session_id@, sni@, x25519_public@, *noise),
        mlkem768_key(noise.mlkem_seed@).len() == MLKEM768_PUBLIC_LEN,
        handshake@.len() == hello_len(sni@, *noise),
        handshake@.len() < 0x1_0000 ==> client_hello_in(handshake@) == Some(
            client_parts(random@, session_id@, sni@, x25519_public@),
        ),
{
    let host = sni.as_bytes();
    let grease = grease_pair(noise.first_grease, noise.last_grease);
    let mut suites: Vec<u8> = Vec::new();
    push_be(&mut suites, grease.0 as u64, 2);
    let chrome = CHROME_CIPHERS;
    push_u16s(&mut suites, &chrome);
    assert(suites@ =~= be_bytes(grease.0 as nat, 2) + u16s_wire(CHROME_CIPHERS@));
    let extensions = encode_extensions(host, x25519_public, noise);
    let mut body: Vec<u8> = Vec::new();
    body.push(3);
    body.push(3);
    body.extend_from_slice(random);
    body.push(SESSION_ID_LEN as u8);
    body.extend_from_slice(session_id);
    push_run(&mut body, &suites);
    body.push(1);
    body.push(0);
    push_run(&mut body, &extensions);
    assert(body@ =~= client_hello_body(random@, session_id@, host@, x25519_public@, *noise));
    let handshake = handshake_msg(1, &body);
    proof {
        law_hello_length(random@, session_id@, sni@, x25519_public@, *noise);
        if handshake@.len() < 0x1_0000 {
            lemma_client_hello(random@, session_id@, sni@, x25519_public@, *noise);
        }
    }
    handshake
}

/// A ClientHello for `sni` with a key share for `x25519_public`, with the
/// noise that was drawn, where there is some.
pub fn client_hello_drawn(
    random: &[u8; 32],
    session_id: &[u8; 32],
    sni: &str,
    x25519_public: &[u8; 32],
    noise: Option<HelloNoise>,
) -> (handshake: Result<Vec<u8>, NoRandomness>)
    ensures
        match noise {
            Some(noise) => handshake matches Ok(handshake) && handshake@ == client_hello_wire(
                random@,
                session_id@,
                sni@,
                x25519_public@,
                noise,
            ) && mlkem768_key(noise.mlkem_seed@).len() == MLKEM768_PUBLIC_LEN && handshake@.len() == hello_len(
                sni@,
                noise,
            ) && (handshake@.len() < 0x1_0000 ==> client_hello_in(handshake@) == Some(
                client_parts(random@, session_id@, sni@, x25519_public@),
            )),
            None => handshake is Err,
        },
{
    match noise {
        Some(noise) => Ok(client_hello_handshake(random, session_id, sni, x25519_public, &noise)),
        None => Err(NoRandomness),
    }
}

/// A ClientHello for `sni` with a key share for `x25519_public`; what else it
/// holds is random. Where it fits in a record, it reads back as it was meant.
/// It fails only where the operating system has no random bytes to give.
pub fn build_client_hello_handshake(
    random: &[u8; 32],
    session_id: &[u8; 32],
    sni: &str,
    x25519_public: &[u8; 32],
) -> (handshake: Result<Vec<u8>, NoRandomness>)
    ensures
        handshake matches Ok(handshake) ==> exists|noise: HelloNoise|
            handshake@ == #[trigger] client_hello_wire(random@, session_id@, sni@, x25519_public@, noise)
                && mlkem768_key(noise.mlkem_seed@).len() == MLKEM768_PUBLIC_LEN && handshake@.len() == hello_len(
                sni@,
                noise,
            ),
        handshake matches Ok(handshake) ==> handshake@.len() <= LONGEST_NAMELESS_HELLO + vstd::utf8::encode_utf8(
            sni@,
        ).len(),
        handshake matches Ok(handshake) ==> (handshake@.len() < 0x1_0000 ==> client_hello_in(handshake@) == Some(
            client_parts(random@, session_id@, sni@, x25519_public@),
        )),
{
    client_hello_drawn(random, session_id, sni, x25519_public, draw_noise())
}

/// A handshake message in a record of its own, with version 3.1.
pub open spec fn hello_record(handshake: Seq<u8>) -> Seq<u8> {
    seq![0x16u8, 3, 1] + run_wire(handshake)
}

pub fn record_of_hello(handshake: &[u8]) -> (record: Vec<u8>)
    ensures
        record@ == hello_record(handshake@),
{
    let mut record: Vec<u8> = Vec::new();
    record.push(0x16);
    record.push(3);
    record.push(1);
    assert(record@ =~= seq![0x16u8, 3, 1]);
    push_run(&mut record, handshake);
    record
}

/// The ClientHello of [`client_hello_drawn`] in a record of its own.
pub fn client_hello_record_drawn(
    random: &[u8; 32],
    session_id: &[u8; 32],
    sni: &str,
    x25519_public: &[u8; 32],
    noise: Option<HelloNoise>,
) -> (record: Result<Vec<u8>, NoRandomness>)
    ensures
        match noise {
            Some(noise) => record matches Ok(record) && record@ == hello_record(
                client_hello_wire(random@, session_id@, sni@, x25519_public@, noise),
            ) && mlkem768_key(noise.mlkem_seed@).len() == MLKEM768_PUBLIC_LEN && record@.len() == 5 + hello_len(
                sni@,
                noise,
            ) && (record@.len() < 0x1_0005 ==> handshake_in(record@) is Some && client_hello_in(
                handshake_in(record@)->0,
            ) == Some(client_parts(random@, session_id@, sni@, x25519_public@))),
            None => record is Err,
        },
{
    match client_hello_drawn(random, session_id, sni, x25519_public, noise) {
        Ok(handshake) => {
            let record = record_of_hello(&handshake);
            proof {
                lemma_hello_record(handshake@);
            }
            Ok(record)
        },
        Err(error) => Err(error),
    }
}

/// The ClientHello of [`build_client_hello_handshake`] in a record of its own.
/// It fails only where the operating system has no random bytes to give.
pub fn build_client_hello_record(
    random: &[u8; 32],
    session_id: &[u8; 32],
    sni: &str,
    x25519_public: &[u8; 32],
) -> (record: Result<Vec<u8>, NoRandomness>)
    ensures
        record matches Ok(record) ==> exists|noise: HelloNoise|
            record@ == hello_record(
                #[trigger] client_hello_wire(random@, session_id@, sni@, x25519_public@, noise),
            ) && mlkem768_key(noise.mlkem_seed@).len() == MLKEM768_PUBLIC_LEN && record@.len() == 5 + hello_len(
                sni@,
                noise,
            ),
        record matches Ok(record) ==> record@.len() <= 5 + LONGEST_NAMELESS_HELLO + vstd::utf8::encode_utf8(
            sni@,
        ).len(),
        record matches Ok(record) ==> (record@.len() < 0x1_0005 ==> handshake_in(record@) is Some && client_hello_in(
            handshake_in(record@)->0,
        ) == Some(client_parts(random@, session_id@, sni@, x25519_public@))),
{
    client_hello_record_drawn(random, session_id, sni, x25519_public, draw_noise())
}

// ---------------------------------------------------------------------------
// The ServerHello
// ---------------------------------------------------------------------------

/// The version extension: TLS 1.3.
pub open spec fn server_versions() -> (nat, Seq<u8>) {
    (EXT_SUPPORTED_VERSIONS as nat, be_bytes(0x0304, 2))
}

/// The key share extension: one X25519 key.
pub open spec fn server_share(public: Seq<u8>) -> (nat, Seq<u8>) {
    (EXT_KEY_SHARE as nat, entry_wire(GROUP_X25519 as nat, public))
}

/// The extensions that `order` asks for, as far as there are such.
pub open spec fn ordered_extensions(public: Seq<u8>, order: Seq<u16>) -> Seq<(nat, Seq<u8>)>
    decreases order.len(),
{
    if order.len() == 0 {
        Seq::empty()
    } else if order.last() == EXT_SUPPORTED_VERSIONS {
        ordered_extensions(public, order.drop_last()).push(server_versions())
    } else if order.last() == EXT_KEY_SHARE {
        ordered_extensions(public, order.drop_last()).push(server_share(public))
    } else {
        ordered_extensions(public, order.drop_last())
    }
}

/// The extensions of the ServerHello: those that `order` asks for, then what
/// it leaves out.
pub open spec fn server_extension_list(public: Seq<u8>, order: Seq<u16>) -> Seq<(nat, Seq<u8>)> {
    let asked = ordered_extensions(public, order);
    let versions = if order.contains(EXT_SUPPORTED_VERSIONS) {
        asked
    } else {
        asked.push(server_versions())
    };
    if order.contains(EXT_KEY_SHARE) {
        versions
    } else {
        versions.push(server_share(public))
    }
}

pub open spec fn server_hello_body(
    random: Seq<u8>,
    session_id: Seq<u8>,
    cipher: u16,
    public: Seq<u8>,
    order: Seq<u16>,
) -> Seq<u8> {
    seq![3u8, 3] + random + be_bytes(session_id.len(), 1) + session_id + be_bytes(cipher as nat, 2) + seq![0u8]
        + run_wire(entries_wire(server_extension_list(public, order)))
}

pub fn build_server_hello_handshake(
    random: &[u8; 32],
    session_id: &[u8],
    cipher: u16,
    server_public: &[u8; 32],
    extension_order: &[u16],
) -> (msg: Vec<u8>)
    ensures
        msg@ == message_wire(
            2,
            server_hello_body(random@, session_id@, cipher, server_public@, extension_order@),
        ),
{
    let mut body: Vec<u8> = Vec::new();
    body.push(3);
    body.push(3);
    body.extend_from_slice(random);
    push_be(&mut body, session_id.len() as u64, 1);
    body.extend_from_slice(session_id);
    push_be(&mut body, cipher as u64, 2);
    body.push(0);
    let mut versions: Vec<u8> = Vec::new();
    push_be(&mut versions, 0x0304, 2);
    assert(versions@ =~= server_versions().1);
    let mut share: Vec<u8> = Vec::new();
    push_entry(&mut share, GROUP_X25519, server_public);
    assert(share@ =~= server_share(server_public@).1);
    let mut extensions: Vec<u8> = Vec::new();
    let mut has_versions: bool = false;
    let mut has_share: bool = false;
    let mut i: usize = 0;
    let ghost order = extension_order@;
    let ghost public = server_public@;
    assert(order.take(0) =~= Seq::empty());
    while i < extension_order.len()
        invariant
            i <= extension_order.len(),
            order == extension_order@,
            versions@ == server_versions().1,
            share@ == server_share(public).1,
            extensions@ == entries_wire(ordered_extensions(public, order.take(i as int))),
            has_versions == order.take(i as int).contains(EXT_SUPPORTED_VERSIONS),
            has_share == order.take(i as int).contains(EXT_KEY_SHARE),
        decreases extension_order.len() - i,
    {
        let typ: u16 = extension_order[i];
        proof {
            let next = order.take(i + 1);
            assert(next.drop_last() =~= order.take(i as int));
            assert(next =~= order.take(i as int).push(typ));
            assert(next[i as int] == typ);
            assert forall|t: u16| #[trigger] next.contains(t) <==> (order.take(i as int).contains(t) || t == typ) by {
                if order.take(i as int).contains(t) {
                    let k = order.take(i as int).index_of(t);
                    assert(next[k] == t);
                }
                if next.contains(t) && t != typ {
                    let k = next.index_of(t);
                    assert(order.take(i as int)[k] == t);
                }
            }
            lemma_entries_wire_push(ordered_extensions(public, order.take(i as int)), server_versions());
            lemma_entries_wire_push(ordered_extensions(public, order.take(i as int)), server_share(public));
        }
        if typ == EXT_SUPPORTED_VERSIONS {
            push_entry(&mut extensions, EXT_SUPPORTED_VERSIONS, &versions);
            has_versions = true;
        } else if typ == EXT_KEY_SHARE {
            push_entry(&mut extensions, EXT_KEY_SHARE, &share);
            has_share = true;
        }
        i = i + 1;
    }
    proof {
        assert(order.take(i as int) =~= order);
        let asked = ordered_extensions(public, order);
        lemma_entries_wire_push(asked, server_versions());
        lemma_entries_wire_push(asked, server_share(public));
        lemma_entries_wire_push(asked.push(server_versions()), server_share(public));
    }
    if !has_versions {
        push_entry(&mut extensions, EXT_SUPPORTED_VERSIONS, &versions);
    }
    if !has_share {
        push_entry(&mut extensions, EXT_KEY_SHARE, &share);
    }
    push_run(&mut body, &extensions);
    assert(body@ =~= server_hello_body(random@, session_id@, cipher, server_public@, extension_order@));
    handshake_msg(2, &body)
}

} // verus!
